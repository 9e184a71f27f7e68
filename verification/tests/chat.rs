use furina::chat::{next_chat_action, queue_world_chat, ChatAction, ChatEvent, RenderLoop};

#[test]
fn messages_are_trimmed_and_queued() {
    let mut pending = None;
    assert_eq!(queue_world_chat(&mut pending, true, " \t\u{3000}hello  world\u{a0}\n"), Ok(()));
    assert_eq!(pending, Some("hello  world".to_string()));
    assert_eq!(queue_world_chat(&mut pending, true, "next"), Ok(()));
    assert_eq!(pending, Some("next".to_string()));
}

#[test]
fn blank_messages_are_refused() {
    let mut pending = Some("waiting".to_string());
    for message in ["", " ", "\n\t ", "\u{2003}\u{85}"] {
        for known in [true, false] {
            assert_eq!(
                queue_world_chat(&mut pending, known, message),
                Err("Chat message cannot be empty.".to_string())
            );
        }
    }
    assert_eq!(pending, Some("waiting".to_string()));
}

#[test]
fn messages_wait_for_the_functions() {
    let mut pending = None;
    assert_eq!(
        queue_world_chat(&mut pending, false, "hello"),
        Err("Game chat function not initialized.".to_string())
    );
    assert_eq!(pending, None);
}

#[test]
fn white_space_is_that_of_std() {
    for n in 0u32..0x11_0000 {
        if let Some(c) = char::from_u32(n) {
            let listed = matches!(
                n,
                0x9..=0xd | 0x20 | 0x85 | 0xa0 | 0x1680 | 0x2000..=0x200a | 0x2028 | 0x2029
                    | 0x202f | 0x205f | 0x3000
            );
            assert_eq!(c.is_whitespace(), listed);
        }
    }
}

#[test]
fn controls_do_nothing_unless_asked() {
    let mut controls = RenderLoop::default();
    assert_eq!(controls.chat_input, "");
    assert_eq!(controls.chat_status, "");
    controls.chat_input = "hi".to_string();
    let mut pending = None;
    controls.handle_chat_controls(false, false, true, true, &mut pending);
    assert_eq!(controls.chat_input, "hi");
    assert_eq!(controls.chat_status, "");
    assert_eq!(pending, None);
}

#[test]
fn controls_queue_what_was_typed() {
    for (enter, click) in [(true, false), (false, true), (true, true)] {
        let mut controls = RenderLoop::default();
        controls.chat_input = " hi ".to_string();
        let mut pending = None;
        controls.handle_chat_controls(enter, click, true, true, &mut pending);
        assert_eq!(controls.chat_input, "");
        assert_eq!(controls.chat_status, "Queued world chat.");
        assert_eq!(pending, Some("hi".to_string()));
    }
}

#[test]
fn controls_say_why_nothing_was_queued() {
    let mut controls = RenderLoop::default();
    let mut pending = None;
    controls.handle_chat_controls(true, false, true, true, &mut pending);
    assert_eq!(controls.chat_status, "Chat message cannot be empty.");
    controls.chat_input = "hi".to_string();
    controls.handle_chat_controls(true, false, true, false, &mut pending);
    assert_eq!(controls.chat_status, "Game chat function not initialized.");
    assert_eq!(controls.chat_input, "hi");
    controls.handle_chat_controls(false, true, false, true, &mut pending);
    assert_eq!(controls.chat_status, "World chat hook is not ready.");
    assert_eq!(controls.chat_input, "hi");
    assert_eq!(pending, None);
}

fn run(
    pending: &mut Option<String>,
    functions_known: bool,
    has_chat: bool,
    made: bool,
    accepted: bool,
) -> Vec<ChatAction> {
    let mut actions = Vec::new();
    let mut event = ChatEvent::Entered { functions_known, has_chat };
    loop {
        let action = next_chat_action(pending, event);
        let next = match &action {
            ChatAction::MakeString(_) => Some(ChatEvent::StringMade { made }),
            ChatAction::SubmitToChat => Some(ChatEvent::ChatSubmitted { accepted }),
            ChatAction::SubmitToWorld => Some(ChatEvent::WorldSubmitted),
            ChatAction::CallOriginal => None,
        };
        actions.push(action);
        match next {
            Some(e) => event = e,
            None => return actions,
        }
    }
}

#[test]
fn waiting_message_goes_to_the_chat() {
    let mut pending = Some("hi".to_string());
    assert_eq!(
        run(&mut pending, true, true, true, true),
        vec![
            ChatAction::MakeString("hi".to_string()),
            ChatAction::SubmitToChat,
            ChatAction::CallOriginal
        ]
    );
    assert_eq!(pending, None);
    assert_eq!(run(&mut pending, true, true, true, true), vec![ChatAction::CallOriginal]);
}

#[test]
fn unaccepted_message_goes_to_the_world() {
    let mut pending = Some("hi".to_string());
    assert_eq!(
        run(&mut pending, true, true, true, false),
        vec![
            ChatAction::MakeString("hi".to_string()),
            ChatAction::SubmitToChat,
            ChatAction::SubmitToWorld,
            ChatAction::CallOriginal
        ]
    );
    assert_eq!(pending, None);
}

#[test]
fn message_without_a_string_is_dropped() {
    let mut pending = Some("hi".to_string());
    assert_eq!(
        run(&mut pending, true, true, false, true),
        vec![ChatAction::MakeString("hi".to_string()), ChatAction::CallOriginal]
    );
    assert_eq!(pending, None);
}

#[test]
fn message_waits_without_a_chat() {
    let mut pending = Some("hi".to_string());
    assert_eq!(run(&mut pending, false, true, true, true), vec![ChatAction::CallOriginal]);
    assert_eq!(run(&mut pending, true, false, true, true), vec![ChatAction::CallOriginal]);
    assert_eq!(pending, Some("hi".to_string()));
}

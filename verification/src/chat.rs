//! World chat: what is typed, what waits to be sent, and the steps that send it.

use vstd::prelude::*;
use vstd::string::*;

use crate::text::{is_white_space, lemma_trimmed_empty, lemma_trimmed_twice, opt_text, trimmed};

verus! {

/// What the chat controls hold from one frame to the next.
#[derive(Debug, PartialEq)]
pub struct RenderLoop {
    /// What has been typed.
    pub chat_input: String,
    /// What became of the last message; empty at first.
    pub chat_status: String,
}

impl Default for RenderLoop {
    fn default() -> (r: Self)
        ensures
            r.chat_input@ == Seq::<char>::empty(),
            r.chat_status@ == Seq::<char>::empty(),
    {
        RenderLoop { chat_input: String::new(), chat_status: String::new() }
    }
}

/// What is sent of a message, or why it is refused: the message without the white space at its
/// ends, provided that something is left of it and that the game's functions are known.
pub open spec fn chat_request(message: Seq<char>, functions_known: bool) -> Result<
    Seq<char>,
    Seq<char>,
> {
    if trimmed(message).len() == 0 {
        Err("Chat message cannot be empty."@)
    } else if !functions_known {
        Err("Game chat function not initialized."@)
    } else {
        Ok(trimmed(message))
    }
}

/// Puts a message in the place of the one that waits to be sent.
pub fn queue_world_chat(
    pending: &mut Option<String>,
    functions_known: bool,
    message: &str,
) -> (r: Result<(), String>)
    ensures
        match chat_request(message@, functions_known) {
            Ok(text) => r is Ok && opt_text(*final(pending)) == Some(text),
            Err(why) => r matches Err(e) && e@ == why && *final(pending) == *old(pending),
        },
{
    let text = message.trim();
    if text.is_empty() {
        return Err("Chat message cannot be empty.".to_owned());
    }
    if !functions_known {
        return Err("Game chat function not initialized.".to_owned());
    }
    *pending = Some(text.to_owned());
    Ok(())
}

/// A message is refused as empty exactly if it is nothing but white space, whether or not the
/// game's functions are known.
pub proof fn lemma_blank_messages_refused(message: Seq<char>, functions_known: bool)
    ensures
        chat_request(message, functions_known) == Err::<Seq<char>, Seq<char>>(
            "Chat message cannot be empty."@,
        ) <==> (forall|i: int| 0 <= i < message.len() ==> is_white_space(message[i])),
{
    lemma_trimmed_empty(message);
    reveal_strlit("Chat message cannot be empty.");
    reveal_strlit("Game chat function not initialized.");
    assert("Chat message cannot be empty."@.len() != "Game chat function not initialized."@.len());
}

/// What waits to be sent is never empty, neither begins nor ends with white space, and is queued
/// unchanged if it is queued again.
pub proof fn lemma_queued_message_is_trimmed(message: Seq<char>)
    ensures
        chat_request(message, true) matches Ok(text) ==> {
            &&& text.len() > 0
            &&& !is_white_space(text.first())
            &&& !is_white_space(text.last())
            &&& chat_request(text, true) == Ok::<Seq<char>, Seq<char>>(text)
        },
{
    lemma_trimmed_twice(message);
}

/// Whether the player asks for the message to be sent.
pub open spec fn send_requested(pressed_enter: bool, send_clicked: bool) -> bool {
    pressed_enter || send_clicked
}

impl RenderLoop {
    /// Acts on the chat controls: where the player asks for it, and the hook is there, what was
    /// typed is queued and the input emptied; the status says what became of it.
    pub fn handle_chat_controls(
        &mut self,
        pressed_enter: bool,
        send_clicked: bool,
        can_send: bool,
        functions_known: bool,
        pending: &mut Option<String>,
    )
        ensures
            !send_requested(pressed_enter, send_clicked) ==> *final(self) == *old(self)
                && *final(pending) == *old(pending),
            send_requested(pressed_enter, send_clicked) && !can_send ==> {
                &&& final(self).chat_status@ == "World chat hook is not ready."@
                &&& final(self).chat_input == old(self).chat_input
                &&& *final(pending) == *old(pending)
            },
            send_requested(pressed_enter, send_clicked) && can_send ==> match chat_request(
                old(self).chat_input@,
                functions_known,
            ) {
                Ok(text) => {
                    &&& final(self).chat_status@ == "Queued world chat."@
                    &&& final(self).chat_input@ == Seq::<char>::empty()
                    &&& opt_text(*final(pending)) == Some(text)
                },
                Err(why) => {
                    &&& final(self).chat_status@ == why
                    &&& final(self).chat_input == old(self).chat_input
                    &&& *final(pending) == *old(pending)
                },
            },
    {
        if !(pressed_enter || send_clicked) {
            return;
        }
        if !can_send {
            self.chat_status = "World chat hook is not ready.".to_owned();
            return;
        }
        match queue_world_chat(pending, functions_known, self.chat_input.as_str()) {
            Ok(()) => {
                self.chat_status = "Queued world chat.".to_owned();
                self.chat_input = String::new();
            },
            Err(e) => {
                self.chat_status = e;
            },
        }
    }
}

// ---------------------------------------------------------------------------------------------
// Sending
// ---------------------------------------------------------------------------------------------

/// What has happened, as the game updates its chat.
#[derive(Debug, PartialEq, Eq, Clone, Copy)]
pub enum ChatEvent {
    /// The game calls its update function. `functions_known`: the game's chat functions are
    /// known; `has_chat`: there is a chat to update.
    Entered { functions_known: bool, has_chat: bool },
    /// The game was asked for a string of its own.
    StringMade { made: bool },
    /// The message was handed to the chat.
    ChatSubmitted { accepted: bool },
    /// The message was handed to the world.
    WorldSubmitted,
}

/// What is to be done next.
#[derive(Debug, PartialEq)]
pub enum ChatAction {
    /// Ask the game for a string of its own that holds this message.
    MakeString(String),
    /// Hand the string to the chat.
    SubmitToChat,
    /// Hand the string to the world.
    SubmitToWorld,
    /// Let the game update its chat; nothing is left to do then.
    CallOriginal,
}

/// A `ChatAction`, taken by what it holds.
pub enum ChatActionModel {
    MakeString(Seq<char>),
    SubmitToChat,
    SubmitToWorld,
    CallOriginal,
}

impl View for ChatAction {
    type V = ChatActionModel;

    open spec fn view(&self) -> ChatActionModel {
        match *self {
            ChatAction::MakeString(s) => ChatActionModel::MakeString(s@),
            ChatAction::SubmitToChat => ChatActionModel::SubmitToChat,
            ChatAction::SubmitToWorld => ChatActionModel::SubmitToWorld,
            ChatAction::CallOriginal => ChatActionModel::CallOriginal,
        }
    }
}

/// What is to be done after an event, and the message that then still waits. A message is taken
/// where there is a chat and a way to send it. A string that was made goes to the chat, and to the
/// world if the chat does not accept it.
pub open spec fn chat_step(pending: Option<Seq<char>>, event: ChatEvent) -> (
    ChatActionModel,
    Option<Seq<char>>,
) {
    match event {
        ChatEvent::Entered { functions_known, has_chat } => match pending {
            Some(message) => if functions_known && has_chat {
                (ChatActionModel::MakeString(message), None)
            } else {
                (ChatActionModel::CallOriginal, pending)
            },
            None => (ChatActionModel::CallOriginal, pending),
        },
        ChatEvent::StringMade { made } => (
            if made {
                ChatActionModel::SubmitToChat
            } else {
                ChatActionModel::CallOriginal
            },
            pending,
        ),
        ChatEvent::ChatSubmitted { accepted } => (
            if accepted {
                ChatActionModel::CallOriginal
            } else {
                ChatActionModel::SubmitToWorld
            },
            pending,
        ),
        ChatEvent::WorldSubmitted => (ChatActionModel::CallOriginal, pending),
    }
}

/// Decides what is to be done after an event.
pub fn next_chat_action(pending: &mut Option<String>, event: ChatEvent) -> (r: ChatAction)
    ensures
        (r@, opt_text(*final(pending))) == chat_step(opt_text(*old(pending)), event),
{
    match event {
        ChatEvent::Entered { functions_known, has_chat } => {
            if !functions_known || !has_chat {
                return ChatAction::CallOriginal;
            }
            match pending.take() {
                Some(message) => ChatAction::MakeString(message),
                None => ChatAction::CallOriginal,
            }
        },
        ChatEvent::StringMade { made } => if made {
            ChatAction::SubmitToChat
        } else {
            ChatAction::CallOriginal
        },
        ChatEvent::ChatSubmitted { accepted } => if accepted {
            ChatAction::CallOriginal
        } else {
            ChatAction::SubmitToWorld
        },
        ChatEvent::WorldSubmitted => ChatAction::CallOriginal,
    }
}

/// What the game answers during one update of its chat.
pub struct ChatAnswers {
    /// A string could be made.
    pub made: bool,
    /// The chat accepted the message.
    pub accepted: bool,
}

/// The event that an action leads to. There is none after the last action.
pub open spec fn chat_event(action: ChatActionModel, answers: ChatAnswers) -> Option<ChatEvent> {
    match action {
        ChatActionModel::MakeString(_) => Some(ChatEvent::StringMade { made: answers.made }),
        ChatActionModel::SubmitToChat => Some(
            ChatEvent::ChatSubmitted { accepted: answers.accepted },
        ),
        ChatActionModel::SubmitToWorld => Some(ChatEvent::WorldSubmitted),
        ChatActionModel::CallOriginal => None,
    }
}

/// How many actions of an update are left, at most, from an event on.
pub open spec fn steps_left(event: ChatEvent) -> nat {
    match event {
        ChatEvent::Entered { .. } => 4,
        ChatEvent::StringMade { .. } => 3,
        ChatEvent::ChatSubmitted { .. } => 2,
        ChatEvent::WorldSubmitted => 1,
    }
}

/// The actions of an update, from an event on.
pub open spec fn chat_actions(
    pending: Option<Seq<char>>,
    event: ChatEvent,
    answers: ChatAnswers,
) -> Seq<ChatActionModel>
    decreases steps_left(event),
{
    let (action, left) = chat_step(pending, event);
    match chat_event(action, answers) {
        Some(next) => if steps_left(next) < steps_left(event) {
            seq![action] + chat_actions(left, next, answers)
        } else {
            seq![action]
        },
        None => seq![action],
    }
}

/// However the game answers, an update lets the game update its chat exactly once, at the end. A
/// message that waits is handed over if the game's functions are known and there is a chat: to the
/// chat if a string could be made, and to the world only where the chat did not accept it.
pub proof fn lemma_update_runs_to_the_end(
    pending: Option<Seq<char>>,
    functions_known: bool,
    has_chat: bool,
    answers: ChatAnswers,
)
    ensures
        chat_actions(pending, ChatEvent::Entered { functions_known, has_chat }, answers) == (
        if pending is Some && functions_known && has_chat {
            let make = ChatActionModel::MakeString(pending.unwrap());
            if !answers.made {
                seq![make, ChatActionModel::CallOriginal]
            } else if answers.accepted {
                seq![make, ChatActionModel::SubmitToChat, ChatActionModel::CallOriginal]
            } else {
                seq![
                    make,
                    ChatActionModel::SubmitToChat,
                    ChatActionModel::SubmitToWorld,
                    ChatActionModel::CallOriginal,
                ]
            }
        } else {
            seq![ChatActionModel::CallOriginal]
        }),
{
    reveal_with_fuel(chat_actions, 5);
    let actions = chat_actions(
        pending,
        ChatEvent::Entered { functions_known, has_chat },
        answers,
    );
    if pending is Some && functions_known && has_chat {
        let make = ChatActionModel::MakeString(pending.unwrap());
        if !answers.made {
            assert(actions =~= seq![make, ChatActionModel::CallOriginal]);
        } else if answers.accepted {
            assert(actions =~= seq![
                make,
                ChatActionModel::SubmitToChat,
                ChatActionModel::CallOriginal,
            ]);
        } else {
            assert(actions =~= seq![
                make,
                ChatActionModel::SubmitToChat,
                ChatActionModel::SubmitToWorld,
                ChatActionModel::CallOriginal,
            ]);
        }
    }
}

/// A message is sent at most once: after it was taken, nothing waits.
pub proof fn lemma_message_taken_once(pending: Option<Seq<char>>, event: ChatEvent)
    ensures
        chat_step(pending, event).0 is MakeString ==> chat_step(pending, event).1 is None,
        chat_step(pending, event).0 !is MakeString ==> chat_step(pending, event).1 == pending,
{
}

} // verus!

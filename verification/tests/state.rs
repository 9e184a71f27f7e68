use bson::spec::BinarySubtype;
use bson::{Binary, Bson, Document};
use furina::minimap::MinimapData;
use furina::overlay::{
    basic_tab, player_label, player_marker, players_heading, world_tab_notice,
};
use furina::packet_handler::{
    apply_message, generate_color_from_id, is_color_id, is_message_in_bounds, is_packet_in_bounds,
    process_document, process_message, process_packet, try_process_packet, AppState, PacketReport,
};
use furina::players::{Coordinate, PlayerInfo, PlayerTable};
use furina::record::{Record, Value};

const ID: &str = "5f00000000000000000080ff";

fn record(fields: Vec<(&str, Value)>) -> Record {
    Record { fields: fields.into_iter().map(|(k, v)| (k.to_string(), v)).collect() }
}

fn text(s: &str) -> Value {
    Value::Text(s.to_string())
}

fn kind(id: &str, mut fields: Vec<(&str, Value)>) -> Record {
    fields.insert(0, ("ID", text(id)));
    record(fields)
}

fn receive(state: &mut AppState, msg: &Record) -> Option<String> {
    assert!(is_message_in_bounds(msg, true));
    process_message(state, msg, true)
}

fn profile() -> Record {
    kind("GPd", vec![("U", text(ID)), ("UN", text("Me"))])
}

fn join(world: &str) -> Record {
    kind("TTjW", vec![("JR", Value::Int32(0)), ("W", text(world))])
}

fn names(state: &AppState) -> Vec<String> {
    state.sorted_players().into_iter().map(|p| p.name).collect()
}

fn world_bytes(width: i32, height: i32) -> Vec<u8> {
    let mut settings = Document::new();
    settings.insert("WorldSizeX", width);
    settings.insert("WorldSizeY", height);
    let mut doc = Document::new();
    doc.insert("WorldSizeSettingsType", settings);
    doc.insert(
        "BlockLayer",
        Bson::Binary(Binary { subtype: BinarySubtype::Generic, bytes: vec![7, 0] }),
    );
    let mut bytes = Vec::new();
    doc.to_writer(&mut bytes).unwrap();
    zstd::encode_all(&bytes[..], 3).unwrap()
}

#[test]
fn state_starts_empty() {
    let state = AppState::default();
    assert_eq!(state.current_world, None);
    assert_eq!(state.self_user_id, None);
    assert_eq!(state.self_user_name, None);
    assert_eq!(state.players.len(), 0);
    assert_eq!(state.minimap, None);
    assert_eq!(state.sorted_players(), Vec::new());
}

#[test]
fn marker_colors_follow_the_float_formula() {
    for n in 0..=255u32 {
        let id = format!("{:02x}{:02X}{:02x}", n, n, n);
        let channel = (n as f32 / 255.0).max(0.4);
        let byte = (channel * 255.0) as u8;
        assert_eq!(generate_color_from_id(&id), [byte, byte, byte, (1.0f32 * 255.0) as u8]);
    }
}

#[test]
fn marker_colors_come_from_the_end_of_an_id() {
    assert_eq!(generate_color_from_id("xyz0080ff"), [255, 128, 102, 255]);
    assert_eq!(generate_color_from_id("80ff9a"), [0x9a, 255, 128, 255]);
    // No number counts as full brightness; a plus sign may stand before a single digit.
    assert_eq!(generate_color_from_id("zz-f+f"), [102, 255, 255, 255]);
    assert_eq!(generate_color_from_id("\u{e9}7070"), [112, 112, 255, 255]);
    for pair in ["00", "7f", "F0", "+f", "-f", "f+", "++", "g0", "0g", " f", "\u{e9}"] {
        let expected = u8::from_str_radix(pair, 16).unwrap_or(255).max(102);
        assert_eq!(generate_color_from_id(&format!("0000{}", pair))[0], expected);
    }
}

#[test]
fn some_ids_give_no_marker_color() {
    assert!(is_color_id("123456"));
    assert!(!is_color_id("12345"));
    assert!(!is_color_id(""));
    assert!(is_color_id("\u{e9}\u{e9}\u{e9}"));
    assert!(!is_color_id("a\u{e9}\u{e9}b"));
    assert!(!is_color_id("\u{20ac}\u{20ac}"));
}

#[test]
fn profile_is_remembered() {
    let mut state = AppState::default();
    assert_eq!(receive(&mut state, &profile()), None);
    assert_eq!(state.self_user_id, Some(ID.to_string()));
    assert_eq!(state.self_user_name, Some("Me".to_string()));
    let me = state.players.get(ID).unwrap();
    assert_eq!(me.name, "Me");
    assert_eq!(me.user_id, Some(ID.to_string()));
    assert_eq!(me.marker_color, [0, 0, 0, 0]);
    receive(&mut state, &kind("GPd", vec![("U", Value::Int32(42))]));
    assert_eq!(state.self_user_id, Some("42".to_string()));
    assert_eq!(state.self_user_name, None);
    assert_eq!(state.players.get("42").unwrap().name, "42");
    receive(&mut state, &kind("GPd", vec![]));
    assert_eq!(state.self_user_id, None);
    assert_eq!(state.players.len(), 2);
}

#[test]
fn joining_resets_the_world() {
    let mut state = AppState::default();
    receive(&mut state, &profile());
    receive(&mut state, &kind("AnP", vec![("U", text("abcdef0123")), ("UN", text("Other"))]));
    state.minimap = Some(MinimapData::default());
    receive(&mut state, &join("PIXEL"));
    assert_eq!(state.current_world, Some("PIXEL".to_string()));
    assert_eq!(state.minimap, None);
    assert_eq!(names(&state), vec!["Me".to_string()]);
    receive(&mut state, &kind("TTjW", vec![("W", Value::Int32(1)), ("WN", text("NAMED"))]));
    assert_eq!(state.current_world, Some("NAMED".to_string()));
    let before = names(&state);
    receive(&mut state, &kind("TTjW", vec![]));
    assert_eq!(state.current_world, Some("NAMED".to_string()));
    assert_eq!(names(&state), before);
}

#[test]
fn refused_join_changes_nothing() {
    let refusals = vec![
        vec![("JR", Value::Int32(3)), ("W", text("X"))],
        vec![("JR", text("1")), ("W", text("X"))],
        vec![("E", Value::Other), ("W", text("X"))],
        vec![("ER", text("full")), ("W", text("X"))],
    ];
    for fields in refusals {
        let mut state = AppState::default();
        receive(&mut state, &profile());
        receive(&mut state, &join("HOME"));
        receive(&mut state, &kind("TTjW", fields));
        assert_eq!(state.current_world, Some("HOME".to_string()));
        assert_eq!(state.players.len(), 1);
    }
}

#[test]
fn leaving_forgets_the_world() {
    let mut state = AppState::default();
    receive(&mut state, &profile());
    receive(&mut state, &join("HOME"));
    state.minimap = Some(MinimapData::default());
    receive(&mut state, &kind("LW", vec![]));
    assert_eq!(state.current_world, None);
    assert_eq!(state.players.len(), 0);
    assert_eq!(state.minimap, None);
    assert_eq!(state.self_user_name, Some("Me".to_string()));
}

#[test]
fn updates_keep_what_they_do_not_mention() {
    let mut state = AppState::default();
    let id = "0123456789abcdef";
    receive(
        &mut state,
        &kind(
            "AnP",
            vec![
                ("U", text(id)),
                ("UN", text("Ann")),
                ("x", Value::Double(f64::to_bits(1.5))),
                ("y", Value::Int32(2)),
                ("d", Value::Int32(3)),
                ("a", Value::Int32(4)),
                ("xpLvL", Value::Int32(5)),
                ("GAmt", Value::Int32(6)),
                ("inPortal", Value::Boolean(true)),
                ("SIc", Value::Int32(7)),
            ],
        ),
    );
    receive(&mut state, &kind("mP", vec![("U", text(id)), ("x", Value::Int64(9)), ("y", text("no"))]));
    let p = state.players.get(id).unwrap();
    assert_eq!(
        *p,
        PlayerInfo {
            user_id: Some(id.to_string()),
            marker_color: [0xef, 0xcd, 0xab, 255],
            name: "Ann".to_string(),
            x: Some(Coordinate::Int64(9)),
            y: Some(Coordinate::Int32(2)),
            dir: Some(3),
            anim: Some(4),
            xp_level: Some(5),
            gem_amount: Some(6),
            in_portal: true,
            status_icon: Some(7),
        }
    );
    receive(&mut state, &kind("PSicU", vec![("U", text(id)), ("SIc", Value::Int32(8)), ("inPortal", Value::Int32(0))]));
    let p = state.players.get(id).unwrap();
    assert_eq!(p.status_icon, Some(8));
    assert!(!p.in_portal);
}

#[test]
fn every_kind_of_update_is_handled() {
    for id in ["AnP", "U", "mP", "PSicU", "PPA"] {
        let mut state = AppState::default();
        receive(&mut state, &kind(id, vec![("U", Value::Int64(77))]));
        let p = state.players.get("77").unwrap();
        assert_eq!(p.name, "77");
        assert_eq!(p.marker_color, [0, 0, 0, 0]);
        receive(&mut state, &kind(id, vec![("x", Value::Int32(1))]));
        assert_eq!(state.players.len(), 1);
    }
}

#[test]
fn own_name_is_used_for_oneself() {
    let mut state = AppState::default();
    receive(&mut state, &profile());
    receive(&mut state, &kind("LW", vec![]));
    receive(&mut state, &kind("U", vec![("U", text(ID))]));
    assert_eq!(state.players.get(ID).unwrap().name, "Me");
    let mut nameless = AppState::default();
    receive(&mut nameless, &kind("GPd", vec![("U", text(ID))]));
    receive(&mut nameless, &kind("LW", vec![]));
    receive(&mut nameless, &kind("U", vec![("U", text(ID))]));
    assert_eq!(nameless.players.get(ID).unwrap().name, "");
}

#[test]
fn players_leave() {
    let mut state = AppState::default();
    for n in [1, 2, 3] {
        receive(&mut state, &kind("AnP", vec![("U", Value::Int32(n))]));
    }
    receive(&mut state, &kind("PL", vec![("U", Value::Int32(2))]));
    assert_eq!(names(&state), vec!["1".to_string(), "3".to_string()]);
    receive(&mut state, &kind("PL", vec![("U", Value::Int32(2))]));
    receive(&mut state, &kind("PL", vec![]));
    assert_eq!(state.players.len(), 2);
}

#[test]
fn sent_and_unknown_messages_change_nothing() {
    let mut state = AppState::default();
    receive(&mut state, &profile());
    for msg in [join("X"), kind("LW", vec![]), kind("AnP", vec![("U", text("x"))])] {
        assert!(is_message_in_bounds(&msg, false));
        assert_eq!(process_message(&mut state, &msg, false), None);
    }
    receive(&mut state, &kind("gpd", vec![("U", Value::Int32(1))]));
    receive(&mut state, &record(vec![("U", Value::Int32(1))]));
    receive(&mut state, &record(vec![("ID", Value::Int32(1)), ("U", Value::Int32(1))]));
    assert_eq!(state.current_world, None);
    assert_eq!(state.players.len(), 1);
}

#[test]
fn repeated_messages_change_nothing() {
    let msgs = vec![
        profile(),
        join("W"),
        kind("AnP", vec![("U", text("abcdef0123")), ("x", Value::Int32(1))]),
        kind("PL", vec![("U", text(ID))]),
        kind("LW", vec![]),
    ];
    for n in 0..msgs.len() {
        let mut once = AppState::default();
        let mut twice = AppState::default();
        for (i, msg) in msgs.iter().enumerate() {
            receive(&mut once, msg);
            receive(&mut twice, msg);
            if i == n {
                receive(&mut twice, msg);
            }
        }
        assert_eq!(once, twice);
    }
}

#[test]
fn worlds_bring_a_minimap() {
    let mut state = AppState::default();
    let msg = kind("GWC", vec![("W", Value::Binary(world_bytes(1, 1)))]);
    assert_eq!(receive(&mut state, &msg), None);
    let expected = MinimapData { width: 1, height: 1, colors: vec![[220, 87, 22]] };
    assert_eq!(state.minimap, Some(expected));
    let bad = kind("GWC", vec![("W", Value::Binary(vec![1, 2, 3]))]);
    let warning = receive(&mut state, &bad).unwrap();
    assert!(warning.starts_with("failed to decode GWC minimap: zstd decode failed: "));
    assert!(state.minimap.is_some());
    assert_eq!(receive(&mut state, &kind("GWC", vec![("W", text("W"))])), None);
    let huge = kind("GWC", vec![("W", Value::Binary(world_bytes(-1, 1)))]);
    assert!(!is_message_in_bounds(&huge, true));
    assert!(is_message_in_bounds(&huge, false));
}

#[test]
fn decoded_minimap_is_taken_over() {
    let mut state = AppState::default();
    let msg = kind("GWC", vec![]);
    assert_eq!(apply_message(&mut state, &msg, true, None), None);
    assert_eq!(state.minimap, None);
    assert_eq!(
        apply_message(&mut state, &msg, true, Some(Err("why".to_string()))),
        Some("failed to decode GWC minimap: why".to_string())
    );
    assert_eq!(apply_message(&mut state, &msg, true, Some(Ok(MinimapData::default()))), None);
    assert_eq!(state.minimap, Some(MinimapData::default()));
}

#[test]
fn packets_are_handled_message_by_message() {
    let mut profile = Document::new();
    profile.insert("ID", "GPd");
    profile.insert("U", ID);
    profile.insert("UN", "Me");
    let mut join = Document::new();
    join.insert("ID", "TTjW");
    join.insert("W", "HOME");
    let mut bad = Document::new();
    bad.insert("ID", "GWC");
    bad.insert("W", Bson::Binary(Binary { subtype: BinarySubtype::Generic, bytes: vec![0] }));
    let mut doc = Document::new();
    doc.insert("m1", join);
    doc.insert("m0", profile);
    doc.insert("m2", bad);
    doc.insert("mc", 3i32);
    let mut bytes = Vec::new();
    doc.to_writer(&mut bytes).unwrap();
    let mut state = AppState::default();
    assert!(is_packet_in_bounds(&bytes, true));
    let report = process_packet(&mut state, &bytes, true);
    assert!(!report.without_envelope);
    assert_eq!(report.warnings.len(), 1);
    assert_eq!(state.current_world, Some("HOME".to_string()));
    assert_eq!(names(&state), vec!["Me".to_string()]);
    let mut sent = AppState::default();
    let report = try_process_packet(&mut sent, &bytes, false).unwrap();
    assert_eq!(report, PacketReport { without_envelope: false, warnings: vec![] });
    assert_eq!(sent, AppState::default());
}

#[test]
fn packets_without_messages_are_reported() {
    let mut doc = Document::new();
    doc.insert("x", 1i32);
    let mut bytes = Vec::new();
    doc.to_writer(&mut bytes).unwrap();
    let mut state = AppState::default();
    assert!(process_packet(&mut state, &bytes, true).without_envelope);
    assert!(!process_packet(&mut state, &bytes, false).without_envelope);
    assert!(!process_packet(&mut state, b"garbage", true).without_envelope);
    assert!(process_document(&mut state, &record(vec![]), true).without_envelope);
    assert_eq!(state, AppState::default());
}

#[test]
fn packets_out_of_bounds_are_left_alone() {
    let mut doc = Document::new();
    doc.insert("ID", "AnP");
    doc.insert("U", "short");
    let mut bytes = Vec::new();
    doc.to_writer(&mut bytes).unwrap();
    let mut state = AppState::default();
    assert!(!is_packet_in_bounds(&bytes, true));
    assert_eq!(try_process_packet(&mut state, &bytes, true), None);
    assert_eq!(state, AppState::default());
    assert!(try_process_packet(&mut state, &bytes, false).is_some());
}

#[test]
fn table_keeps_one_player_for_each_id() {
    let mut table = PlayerTable::new();
    let named = |name: &str| {
        let mut p = PlayerInfo::default();
        p.name = name.to_string();
        p
    };
    table.insert("a".to_string(), named("1"));
    table.insert("b".to_string(), named("2"));
    table.insert("a".to_string(), named("3"));
    assert_eq!(table.len(), 2);
    assert_eq!(table.get("a").unwrap().name, "3");
    assert_eq!(table.get("c"), None);
    table.remove("a");
    assert_eq!(table.get("a"), None);
    assert_eq!(table.get("b").unwrap().name, "2");
    table.clear();
    assert_eq!(table.len(), 0);
}

#[test]
fn players_are_sorted_by_name_and_id() {
    let mut state = AppState::default();
    for (id, name) in [("000009", "Zed"), ("000001", "ann"), ("000003", "Bob"), ("000002", "Bob"), ("000004", "\u{c9}va")] {
        receive(&mut state, &kind("AnP", vec![("U", text(id)), ("UN", text(name))]));
    }
    let sorted: Vec<(String, Option<String>)> =
        state.sorted_players().into_iter().map(|p| (p.name, p.user_id)).collect();
    let mut expected = sorted.clone();
    expected.sort();
    assert_eq!(sorted, expected);
    assert_eq!(sorted[0], ("Bob".to_string(), Some("000002".to_string())));
    assert_eq!(sorted.len(), 5);
}

#[test]
fn tabs_show_the_state() {
    let mut state = AppState::default();
    let tab = basic_tab(&state, false, false);
    assert_eq!(tab.packet_hooks, "Packet hooks: unavailable");
    assert_eq!(tab.world, "World: (none)");
    assert_eq!(tab.player, "Self: (unknown)");
    assert_eq!(tab.world_chat, "World chat: unavailable");
    assert_eq!(
        world_tab_notice(&state),
        Some("Minimap and player list appear after world packets arrive.")
    );
    receive(&mut state, &profile());
    receive(&mut state, &join("HOME"));
    let tab = basic_tab(&state, true, true);
    assert_eq!(tab.packet_hooks, "Packet hooks: ready");
    assert_eq!(tab.world, "World: HOME");
    assert_eq!(tab.player, "Self: Me");
    assert_eq!(tab.world_chat, "World chat: ready");
    assert_eq!(world_tab_notice(&state), None);
    assert_eq!(players_heading(&state), "Players (1)");
}

#[test]
fn players_are_labelled_and_marked() {
    let mut p = PlayerInfo::default();
    p.user_id = Some("a".to_string());
    p.name = "Ann".to_string();
    p.marker_color = [1, 2, 3, 4];
    let me = Some("a".to_string());
    let other = Some("b".to_string());
    assert_eq!(player_label(&p, &me, " (1.0, 2.0)"), "Ann (you) (1.0, 2.0)");
    assert_eq!(player_label(&p, &other, " (1.0, 2.0)"), "Ann (1.0, 2.0)");
    assert_eq!(player_label(&p, &None, ""), "Ann");
    assert_eq!(player_marker(&p, &other), None);
    p.x = Some(Coordinate::Int32(1));
    assert_eq!(player_marker(&p, &other), None);
    p.y = Some(Coordinate::Text("2".to_string()));
    assert_eq!(player_marker(&p, &other), Some([1, 2, 3, 4]));
    assert_eq!(player_marker(&p, &me), Some([255, 255, 255, 255]));
    p.user_id = None;
    assert_eq!(player_marker(&p, &None), Some([255, 255, 255, 255]));
}

#[test]
fn players_are_known_under_their_own_ids() {
    let mut state = AppState::default();
    let ids = ["abcdef", "000000000000", "zzzzzzzz", "5f5f5f5f"];
    receive(&mut state, &profile());
    receive(&mut state, &join("W"));
    for id in ids {
        receive(&mut state, &kind("mP", vec![("U", text(id))]));
    }
    receive(&mut state, &kind("mP", vec![("U", Value::ObjectId(vec![0xab; 12]))]));
    for p in state.sorted_players() {
        let id = p.user_id.clone().unwrap();
        assert_eq!(state.players.get(&id), Some(&p));
        let c = p.marker_color;
        assert!(c == [0, 0, 0, 0] || (c[0] >= 102 && c[1] >= 102 && c[2] >= 102 && c[3] == 255));
    }
    assert_eq!(state.players.len(), 6);
    assert_eq!(state.players.get("000000000000").unwrap().marker_color, [102, 102, 102, 255]);
    assert_eq!(state.players.get(&"ab".repeat(12)).unwrap().marker_color, [0, 0, 0, 0]);
}

#[test]
fn packets_in_a_row_are_as_one() {
    let first = record(vec![("m0", Value::Nested(profile())), ("m1", Value::Nested(join("W")))]);
    let second = record(vec![(
        "m0",
        Value::Nested(kind("AnP", vec![("U", text("abcdef")), ("UN", text("Ann"))])),
    )]);
    let both = record(vec![
        ("m0", Value::Nested(profile())),
        ("m1", Value::Nested(join("W"))),
        (
            "m2",
            Value::Nested(kind("AnP", vec![("U", text("abcdef")), ("UN", text("Ann"))])),
        ),
    ]);
    let mut a = AppState::default();
    process_document(&mut a, &first, true);
    process_document(&mut a, &second, true);
    let mut b = AppState::default();
    process_document(&mut b, &both, true);
    assert_eq!(a, b);
    assert_eq!(names(&a), vec!["Ann".to_string(), "Me".to_string()]);
}

#[test]
fn order_does_not_depend_on_arrival() {
    let ids = ["aaaaaa", "bbbbbb", "cccccc", "dddddd"];
    let mut forward = AppState::default();
    let mut backward = AppState::default();
    for i in 0..ids.len() {
        let name = ["X", "Y", "X", "A"];
        let j = ids.len() - 1 - i;
        receive(&mut forward, &kind("AnP", vec![("U", text(ids[i])), ("UN", text(name[i]))]));
        receive(&mut backward, &kind("AnP", vec![("U", text(ids[j])), ("UN", text(name[j]))]));
    }
    assert_eq!(forward.sorted_players(), backward.sorted_players());
    let order: Vec<String> =
        forward.sorted_players().into_iter().map(|p| p.user_id.unwrap()).collect();
    assert_eq!(order, vec!["dddddd", "aaaaaa", "cccccc", "bbbbbb"]);
}

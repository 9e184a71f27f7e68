use bson::oid::ObjectId;
use bson::spec::BinarySubtype;
use bson::{Binary, Bson, Document};
use furina::messages::{
    collect_messages, get_bool, get_f32, get_i32, get_id_string, has_length_prefix,
    try_parse_outer_document,
};
use furina::players::Coordinate;
use furina::record::{AccessError, Record, Value};

fn record(fields: Vec<(&str, Value)>) -> Record {
    Record { fields: fields.into_iter().map(|(k, v)| (k.to_string(), v)).collect() }
}

fn text(s: &str) -> Value {
    Value::Text(s.to_string())
}

fn message(tag: i32) -> Value {
    Value::Nested(record(vec![("tag", Value::Int32(tag))]))
}

fn bytes_of(doc: &Document) -> Vec<u8> {
    let mut bytes = Vec::new();
    doc.to_writer(&mut bytes).unwrap();
    bytes
}

fn tags(doc: &Record) -> Vec<i32> {
    collect_messages(doc).iter().map(|m| get_i32(m, "tag").unwrap()).collect()
}

fn prefixed(payload: &[u8]) -> Vec<u8> {
    let mut bytes = ((payload.len() + 4) as u32).to_le_bytes().to_vec();
    bytes.extend_from_slice(payload);
    bytes
}

#[test]
fn documents_are_read_with_all_that_is_nested() {
    let mut inner = Document::new();
    inner.insert("deep", true);
    let mut middle = Document::new();
    middle.insert("inner", inner);
    let mut doc = Document::new();
    doc.insert("d", 1.5f64);
    doc.insert("s", "text");
    doc.insert("b", false);
    doc.insert("i", 7i32);
    doc.insert("l", -8i64);
    doc.insert("n", Bson::Null);
    doc.insert("a", vec![Bson::Int32(1)]);
    doc.insert("bin", Bson::Binary(Binary { subtype: BinarySubtype::Generic, bytes: vec![1, 2] }));
    doc.insert("id", ObjectId::from_bytes([7; 12]));
    doc.insert("m", middle);
    assert_eq!(
        try_parse_outer_document(&bytes_of(&doc)),
        Some(record(vec![
            ("d", Value::Double(f64::to_bits(1.5))),
            ("s", text("text")),
            ("b", Value::Boolean(false)),
            ("i", Value::Int32(7)),
            ("l", Value::Int64(-8)),
            ("n", Value::Other),
            ("a", Value::Other),
            ("bin", Value::Binary(vec![1, 2])),
            ("id", Value::ObjectId(vec![7; 12])),
            (
                "m",
                Value::Nested(record(vec![(
                    "inner",
                    Value::Nested(record(vec![("deep", Value::Boolean(true))]))
                )]))
            ),
        ]))
    );
}

#[test]
fn packets_may_begin_with_their_length() {
    let mut doc = Document::new();
    doc.insert("i", 7i32);
    let bytes = bytes_of(&doc);
    let expected = Some(record(vec![("i", Value::Int32(7))]));
    assert_eq!(try_parse_outer_document(&bytes), expected);
    let mut packet = prefixed(&bytes);
    assert!(has_length_prefix(&packet));
    assert_eq!(try_parse_outer_document(&packet), expected);
    packet[0] += 1;
    assert!(!has_length_prefix(&packet));
    assert_eq!(try_parse_outer_document(&packet), None);
}

#[test]
fn other_bytes_are_no_packet() {
    assert_eq!(try_parse_outer_document(&[]), None);
    assert_eq!(try_parse_outer_document(&[4, 0, 0, 0]), None);
    assert_eq!(try_parse_outer_document(b"hello, world"), None);
    assert_eq!(try_parse_outer_document(&prefixed(b"garbage")), None);
    assert!(!has_length_prefix(&[4, 0, 0, 0]));
    assert!(has_length_prefix(&[5, 0, 0, 0, 9]));
}

#[test]
fn fields_are_found_by_name() {
    let doc = record(vec![
        ("a", Value::Int32(1)),
        ("b", text("x")),
        ("c", Value::Nested(record(vec![]))),
        ("a", Value::Int32(2)),
    ]);
    assert_eq!(doc.get("a"), Some(&Value::Int32(1)));
    assert_eq!(doc.get("z"), None);
    assert!(doc.contains_key("b"));
    assert!(!doc.contains_key(""));
    assert_eq!(doc.get_str("b"), Some(&"x".to_string()));
    assert_eq!(doc.get_str("a"), None);
    assert_eq!(doc.get_i32("a"), Ok(1));
    assert_eq!(doc.get_i32("b"), Err(AccessError::UnexpectedType));
    assert_eq!(doc.get_i32("z"), Err(AccessError::NotPresent));
    assert_eq!(doc.get_document("c"), Ok(&record(vec![])));
    assert_eq!(doc.get_document("b"), Err(AccessError::UnexpectedType));
    assert_eq!(doc.get_document("z"), Err(AccessError::NotPresent));
}

#[test]
fn ids_are_read_as_text() {
    let oid = ObjectId::from_bytes([0, 1, 2, 3, 4, 5, 6, 7, 0xAB, 0xCD, 0xEF, 0xFF]);
    let doc = record(vec![
        ("s", text("abc")),
        ("i", Value::Int32(-5)),
        ("l", Value::Int64(i64::MIN)),
        ("o", Value::ObjectId(oid.bytes().to_vec())),
        ("b", Value::Boolean(true)),
        ("d", Value::Double(0)),
    ]);
    assert_eq!(get_id_string(&doc, "s"), Some("abc".to_string()));
    assert_eq!(get_id_string(&doc, "i"), Some("-5".to_string()));
    assert_eq!(get_id_string(&doc, "l"), Some(i64::MIN.to_string()));
    assert_eq!(get_id_string(&doc, "o"), Some(oid.to_hex()));
    assert_eq!(get_id_string(&doc, "o"), Some("0001020304050607abcdefff".to_string()));
    assert_eq!(get_id_string(&doc, "b"), None);
    assert_eq!(get_id_string(&doc, "d"), None);
    assert_eq!(get_id_string(&doc, "z"), None);
}

#[test]
fn numbers_are_read_from_several_kinds() {
    let doc = record(vec![
        ("i", Value::Int32(-5)),
        ("l", Value::Int64(0x1_0000_0007)),
        ("m", Value::Int64(0xFFFF_FFFF)),
        ("n", Value::Int64(i64::MIN)),
        ("d", Value::Double(f64::to_bits(-3.9))),
        ("s", text("+12")),
        ("t", text("twelve")),
        ("b", Value::Boolean(true)),
    ]);
    assert_eq!(get_i32(&doc, "i"), Some(-5));
    assert_eq!(get_i32(&doc, "l"), Some(7));
    assert_eq!(get_i32(&doc, "m"), Some(-1));
    assert_eq!(get_i32(&doc, "n"), Some(0));
    assert_eq!(get_i32(&doc, "d"), Some(-3));
    assert_eq!(get_i32(&doc, "s"), Some(12));
    assert_eq!(get_i32(&doc, "t"), None);
    assert_eq!(get_i32(&doc, "b"), None);
    assert_eq!(get_i32(&doc, "z"), None);
    for n in [0i64, -1, 1 << 31, -(1 << 31), (1 << 31) - 1, 1 << 32, i64::MAX, i64::MIN, -(1 << 33) - 3] {
        let doc = record(vec![("n", Value::Int64(n))]);
        assert_eq!(get_i32(&doc, "n"), Some(n as i32));
    }
}

#[test]
fn coordinates_are_read_from_several_kinds() {
    let doc = record(vec![
        ("i", Value::Int32(-5)),
        ("l", Value::Int64(9)),
        ("d", Value::Double(f64::to_bits(2.5))),
        ("s", text("1e-3")),
        ("t", text("far")),
        ("b", Value::Boolean(true)),
    ]);
    assert_eq!(get_f32(&doc, "i"), Some(Coordinate::Int32(-5)));
    assert_eq!(get_f32(&doc, "l"), Some(Coordinate::Int64(9)));
    assert_eq!(get_f32(&doc, "d"), Some(Coordinate::Double(f64::to_bits(2.5))));
    assert_eq!(get_f32(&doc, "s"), Some(Coordinate::Text("1e-3".to_string())));
    assert_eq!(get_f32(&doc, "t"), None);
    assert_eq!(get_f32(&doc, "b"), None);
    assert_eq!(get_f32(&doc, "z"), None);
}

#[test]
fn truth_values_are_read_from_several_kinds() {
    let doc = record(vec![
        ("t", Value::Boolean(true)),
        ("f", Value::Boolean(false)),
        ("i", Value::Int32(-5)),
        ("o", Value::Int32(0)),
        ("l", Value::Int64(1 << 40)),
        ("p", Value::Int64(0)),
        ("s", text("true")),
    ]);
    assert_eq!(get_bool(&doc, "t"), Some(true));
    assert_eq!(get_bool(&doc, "f"), Some(false));
    assert_eq!(get_bool(&doc, "i"), Some(true));
    assert_eq!(get_bool(&doc, "o"), Some(false));
    assert_eq!(get_bool(&doc, "l"), Some(true));
    assert_eq!(get_bool(&doc, "p"), Some(false));
    assert_eq!(get_bool(&doc, "s"), None);
    assert_eq!(get_bool(&doc, "z"), None);
}

#[test]
fn identified_document_is_the_message() {
    let doc = record(vec![
        ("mc", Value::Int32(1)),
        ("m0", message(1)),
        ("ID", Value::Other),
    ]);
    let found = collect_messages(&doc);
    assert_eq!(found.len(), 1);
    assert_eq!(found[0], &doc);
}

#[test]
fn counted_messages_come_first() {
    let doc = record(vec![
        ("m2", message(2)),
        ("m0", message(0)),
        ("m1", text("no message")),
        ("m3", message(3)),
        ("mc", Value::Int32(3)),
    ]);
    assert_eq!(tags(&doc), vec![0, 2]);
}

#[test]
fn numbered_messages_come_in_order() {
    let doc = record(vec![
        ("m10", message(10)),
        ("m2", message(2)),
        ("m+2", message(22)),
        ("m02", message(23)),
        ("m", message(-1)),
        ("mx", message(-1)),
        ("m-1", message(-1)),
        ("n1", message(-1)),
        ("m5", text("no message")),
        ("m1", message(1)),
    ]);
    assert_eq!(tags(&doc), vec![1, 2, 22, 23, 10]);
    let negative = record(vec![("mc", Value::Int32(-4)), ("m1", message(1)), ("m0", message(0))]);
    assert_eq!(tags(&negative), vec![0, 1]);
    let missed = record(vec![("mc", Value::Int32(1)), ("m1", message(1))]);
    assert_eq!(tags(&missed), vec![1]);
}

#[test]
fn identified_messages_come_last() {
    let identified = |tag: i32| {
        Value::Nested(record(vec![("ID", text("x")), ("tag", Value::Int32(tag))]))
    };
    let doc = record(vec![
        ("b", identified(1)),
        ("a", identified(2)),
        ("c", message(3)),
        ("d", text("no message")),
    ]);
    assert_eq!(tags(&doc), vec![1, 2]);
    assert_eq!(tags(&record(vec![("c", message(3))])), Vec::<i32>::new());
}

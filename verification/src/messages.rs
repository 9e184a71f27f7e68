//! Messages: the envelope that holds them, and their fields.

use vstd::prelude::*;
use vstd::string::*;

use crate::codec::{document_read, read_record};
use crate::floats::{double_as_i32, double_to_i32, is_float_text, reads_as_float};
use crate::numbers::{
    decimal, decimal_nat, decimal_text, hex_lower, hex_lower_text, parse_i32, parse_unsigned,
    parsed_i32, parsed_unsigned, push_decimal,
};
use crate::players::{Coordinate, CoordinateModel};
use crate::record::{field, Record, RecordModel, Value, ValueModel};

verus! {

// ---------------------------------------------------------------------------------------------
// Fields
// ---------------------------------------------------------------------------------------------

/// The id in the field `key`, as text.
pub open spec fn id_string(msg: RecordModel, key: Seq<char>) -> Option<Seq<char>> {
    match field(msg, key) {
        Some(ValueModel::Text(s)) => Some(s),
        Some(ValueModel::Int32(n)) => Some(decimal(n as int)),
        Some(ValueModel::Int64(n)) => Some(decimal(n as int)),
        Some(ValueModel::ObjectId(bytes)) => Some(hex_lower(bytes)),
        _ => None,
    }
}

/// The 32-bit number that agrees with `n` in its lower 32 bits.
pub open spec fn low_i32(n: int) -> i32 {
    let low = n % 0x1_0000_0000;
    if low < 0x8000_0000 {
        low as i32
    } else {
        (low - 0x1_0000_0000) as i32
    }
}

/// The field `key` as a 32-bit number.
pub open spec fn int_field(msg: RecordModel, key: Seq<char>) -> Option<i32> {
    match field(msg, key) {
        Some(ValueModel::Int32(n)) => Some(n),
        Some(ValueModel::Int64(n)) => Some(low_i32(n as int)),
        Some(ValueModel::Double(bits)) => Some(double_as_i32(bits)),
        Some(ValueModel::Text(s)) => parsed_i32(s),
        _ => None,
    }
}

/// The field `key` as a coordinate.
pub open spec fn coordinate_field(msg: RecordModel, key: Seq<char>) -> Option<CoordinateModel> {
    match field(msg, key) {
        Some(ValueModel::Int32(n)) => Some(CoordinateModel::Int32(n)),
        Some(ValueModel::Int64(n)) => Some(CoordinateModel::Int64(n)),
        Some(ValueModel::Double(bits)) => Some(CoordinateModel::Double(bits)),
        Some(ValueModel::Text(s)) => if is_float_text(s) {
            Some(CoordinateModel::Text(s))
        } else {
            None
        },
        _ => None,
    }
}

/// The field `key` as a truth value.
pub open spec fn bool_field(msg: RecordModel, key: Seq<char>) -> Option<bool> {
    match field(msg, key) {
        Some(ValueModel::Boolean(b)) => Some(b),
        Some(ValueModel::Int32(n)) => Some(n != 0),
        Some(ValueModel::Int64(n)) => Some(n != 0),
        _ => None,
    }
}

/// The id in the field `key`, as text.
pub fn get_id_string(doc: &Record, key: &str) -> (r: Option<String>)
    ensures
        match r {
            Some(s) => id_string(doc@, key@) == Some(s@),
            None => id_string(doc@, key@) is None,
        },
{
    match doc.get(key) {
        Some(Value::Text(v)) => Some(v.clone()),
        Some(Value::Int32(v)) => Some(decimal_text(*v as i64)),
        Some(Value::Int64(v)) => Some(decimal_text(*v)),
        Some(Value::ObjectId(v)) => Some(hex_lower_text(v.as_slice())),
        _ => None,
    }
}

fn truncate(n: i64) -> (r: i32)
    ensures
        r == low_i32(n as int),
{
    let r = #[verifier::truncate] (n as i32);
    proof {
        assert((n - r) % 0x1_0000_0000 == 0) by (bit_vector)
            requires
                r == n as i32,
        ;
    }
    r
}

/// The field `key` as a 32-bit number.
pub fn get_i32(doc: &Record, key: &str) -> (r: Option<i32>)
    ensures
        r == int_field(doc@, key@),
{
    match doc.get(key) {
        Some(Value::Int32(v)) => Some(*v),
        Some(Value::Int64(v)) => Some(truncate(*v)),
        Some(Value::Double(v)) => Some(double_to_i32(*v)),
        Some(Value::Text(v)) => parse_i32(v.as_str()),
        _ => None,
    }
}

/// The field `key` as a coordinate.
pub fn get_f32(doc: &Record, key: &str) -> (r: Option<Coordinate>)
    ensures
        match r {
            Some(c) => coordinate_field(doc@, key@) == Some(c@),
            None => coordinate_field(doc@, key@) is None,
        },
{
    match doc.get(key) {
        Some(Value::Int32(v)) => Some(Coordinate::Int32(*v)),
        Some(Value::Int64(v)) => Some(Coordinate::Int64(*v)),
        Some(Value::Double(v)) => Some(Coordinate::Double(*v)),
        Some(Value::Text(v)) => {
            if reads_as_float(v.as_str()) {
                Some(Coordinate::Text(v.clone()))
            } else {
                None
            }
        },
        _ => None,
    }
}

/// The field `key` as a truth value.
pub fn get_bool(doc: &Record, key: &str) -> (r: Option<bool>)
    ensures
        r == bool_field(doc@, key@),
{
    match doc.get(key) {
        Some(Value::Boolean(v)) => Some(*v),
        Some(Value::Int32(v)) => Some(*v != 0),
        Some(Value::Int64(v)) => Some(*v != 0),
        _ => None,
    }
}

// ---------------------------------------------------------------------------------------------
// Packets
// ---------------------------------------------------------------------------------------------

/// The number in the first four bytes, the lowest one first.
pub open spec fn length_prefix(bytes: Seq<u8>) -> int {
    bytes[0] + 256 * bytes[1] + 65536 * bytes[2] + 16777216 * bytes[3]
}

/// The document that a packet holds: the packet itself, or what follows a prefix that gives the
/// length of the packet.
pub open spec fn outer_document(bytes: Seq<u8>) -> Option<RecordModel> {
    match document_read(bytes) {
        Ok(doc) => Some(doc),
        Err(_) => if bytes.len() > 4 && length_prefix(bytes) == bytes.len() {
            match document_read(bytes.skip(4)) {
                Ok(doc) => Some(doc),
                Err(_) => None,
            }
        } else {
            None
        },
    }
}

/// An optional document, taken by its view.
pub open spec fn opt_record(doc: Option<Record>) -> Option<RecordModel> {
    match doc {
        Some(doc) => Some(doc@),
        None => None,
    }
}

/// Whether a packet starts with its own length, in four bytes.
pub fn has_length_prefix(bytes: &[u8]) -> (r: bool)
    ensures
        r == (bytes@.len() > 4 && length_prefix(bytes@) == bytes@.len()),
{
    if bytes.len() <= 4 {
        return false;
    }
    let total: u64 = bytes[0] as u64 + 256 * bytes[1] as u64 + 65536 * bytes[2] as u64 + 16777216
        * bytes[3] as u64;
    total == bytes.len() as u64
}

/// Reads the document that a packet holds.
pub fn try_parse_outer_document(bytes: &[u8]) -> (r: Option<Record>)
    ensures
        opt_record(r) == outer_document(bytes@),
{
    if let Ok(doc) = read_record(bytes) {
        return Some(doc);
    }
    if has_length_prefix(bytes) {
        let rest = vstd::slice::slice_subrange(bytes, 4, bytes.len());
        assert(rest@ =~= bytes@.skip(4));
        match read_record(rest) {
            Ok(doc) => Some(doc),
            Err(_) => None,
        }
    } else {
        None
    }
}

// ---------------------------------------------------------------------------------------------
// Envelopes
// ---------------------------------------------------------------------------------------------

/// The name of the field for the message with the number `i`.
pub open spec fn message_key(i: nat) -> Seq<char> {
    seq!['m'] + decimal_nat(i)
}

/// The messages with the numbers below `count`, in order, as far as they are there.
pub open spec fn counted_messages(doc: RecordModel, count: int) -> Seq<RecordModel>
    decreases count,
{
    if count <= 0 {
        Seq::empty()
    } else {
        match field(doc, message_key((count - 1) as nat)) {
            Some(ValueModel::Nested(msg)) => counted_messages(doc, count - 1).push(msg),
            _ => counted_messages(doc, count - 1),
        }
    }
}

/// The number of the message that a field holds: that in its name, where its value is a document.
pub open spec fn numbered(entry: (Seq<char>, ValueModel)) -> Option<(nat, RecordModel)> {
    match entry.1 {
        ValueModel::Nested(msg) => if entry.0.len() > 0 && entry.0.first() == 'm' {
            match parsed_unsigned(entry.0.drop_first(), usize::MAX as nat) {
                Some(i) => Some((i, msg)),
                None => None,
            }
        } else {
            None
        },
        _ => None,
    }
}

/// `list` with `item` behind the last of the items whose number is no larger.
pub open spec fn placed(
    list: Seq<(nat, RecordModel)>,
    item: (nat, RecordModel),
) -> Seq<(nat, RecordModel)>
    decreases list.len(),
{
    if list.len() == 0 || list.last().0 <= item.0 {
        list.push(item)
    } else {
        placed(list.drop_last(), item).push(list.last())
    }
}

/// The numbered messages of a document by their numbers, those with the same number in the order
/// of the document.
pub open spec fn numbered_messages(doc: RecordModel) -> Seq<(nat, RecordModel)>
    decreases doc.len(),
{
    if doc.len() == 0 {
        Seq::empty()
    } else {
        match numbered(doc.last()) {
            Some(item) => placed(numbered_messages(doc.drop_last()), item),
            None => numbered_messages(doc.drop_last()),
        }
    }
}

/// The documents among the fields that say what kind of message they are, in order.
pub open spec fn identified_messages(doc: RecordModel) -> Seq<RecordModel>
    decreases doc.len(),
{
    if doc.len() == 0 {
        Seq::empty()
    } else {
        match doc.last().1 {
            ValueModel::Nested(msg) => if field(msg, "ID"@) is Some {
                identified_messages(doc.drop_last()).push(msg)
            } else {
                identified_messages(doc.drop_last())
            },
            _ => identified_messages(doc.drop_last()),
        }
    }
}

/// How many messages a document says that it holds.
pub open spec fn message_count(doc: RecordModel) -> int {
    match int_field(doc, "mc"@) {
        Some(n) => if n < 0 {
            0
        } else {
            n as int
        },
        None => 0,
    }
}

/// The messages of numbered messages.
pub open spec fn without_numbers(list: Seq<(nat, RecordModel)>) -> Seq<RecordModel> {
    list.map_values(|item: (nat, RecordModel)| item.1)
}

/// The messages that a document holds: itself, where it is one; else those that it counts; else
/// those that are numbered; else those that say what kind they are.
pub open spec fn messages(doc: RecordModel) -> Seq<RecordModel> {
    let counted = counted_messages(doc, message_count(doc));
    let by_number = numbered_messages(doc);
    if field(doc, "ID"@) is Some {
        seq![doc]
    } else if counted.len() > 0 {
        counted
    } else if by_number.len() > 0 {
        without_numbers(by_number)
    } else {
        identified_messages(doc)
    }
}

/// Documents, each taken by its view.
pub open spec fn record_models(docs: Seq<&Record>) -> Seq<RecordModel> {
    docs.map_values(|d: &Record| d@)
}

/// Numbered documents, each taken by its view.
pub open spec fn numbered_models(docs: Seq<(usize, &Record)>) -> Seq<(nat, RecordModel)> {
    docs.map_values(|d: (usize, &Record)| (d.0 as nat, d.1@))
}

proof fn lemma_placed(list: Seq<(nat, RecordModel)>, item: (nat, RecordModel), p: int)
    requires
        0 <= p <= list.len(),
        forall|j: int| p <= j < list.len() ==> (#[trigger] list[j]).0 > item.0,
        p > 0 ==> list[p - 1].0 <= item.0,
    ensures
        placed(list, item) == list.insert(p, item),
    decreases list.len(),
{
    if p == list.len() {
        assert(list.insert(p, item) =~= list.push(item));
    } else {
        lemma_placed(list.drop_last(), item, p);
        assert(list.insert(p, item) =~= list.drop_last().insert(p, item).push(list.last()));
    }
}

fn message_key_text(i: u64) -> (r: String)
    ensures
        r@ == message_key(i as nat),
{
    let mut key = String::new();
    key.push('m');
    push_decimal(&mut key, i);
    assert(key@ =~= message_key(i as nat));
    key
}

fn collect_counted<'a>(doc: &'a Record, count: i32) -> (r: Vec<&'a Record>)
    ensures
        record_models(r@) == counted_messages(doc@, count as int),
{
    let mut out: Vec<&'a Record> = Vec::new();
    let mut idx: i32 = 0;
    assert(record_models(out@) =~= Seq::empty());
    while idx < count
        invariant
            0 <= idx,
            idx <= count || count <= 0,
            idx == 0 || idx <= count,
            record_models(out@) == counted_messages(doc@, idx as int),
        decreases count - idx,
    {
        let key = message_key_text(idx as u64);
        if let Some(Value::Nested(msg)) = doc.get(key.as_str()) {
            let ghost before = out@;
            out.push(msg);
            assert(record_models(out@) =~= record_models(before).push(msg@));
        }
        idx = idx + 1;
    }
    out
}

/// The number in the name of a message's field.
fn message_number(key: &str) -> (r: Option<usize>)
    ensures
        match r {
            Some(i) => key@.len() > 0 && key@.first() == 'm' && parsed_unsigned(
                key@.drop_first(),
                usize::MAX as nat,
            ) == Some(i as nat),
            None => !(key@.len() > 0 && key@.first() == 'm') || parsed_unsigned(
                key@.drop_first(),
                usize::MAX as nat,
            ) is None,
        },
{
    let len = key.unicode_len();
    if len == 0 || key.get_char(0) != 'm' {
        return None;
    }
    let suffix = key.substring_char(1, len);
    assert(suffix@ =~= key@.drop_first());
    match parse_unsigned(suffix, usize::MAX as u64) {
        Some(i) => Some(i as usize),
        None => None,
    }
}

fn place<'a>(list: &mut Vec<(usize, &'a Record)>, i: usize, msg: &'a Record)
    ensures
        numbered_models(final(list)@) == placed(numbered_models(old(list)@), (i as nat, msg@)),
{
    let ghost model = numbered_models(list@);
    let mut p: usize = list.len();
    while p > 0 && list[p - 1].0 > i
        invariant
            p <= list@.len(),
            list@ == old(list)@,
            model == numbered_models(list@),
            forall|j: int| p <= j < model.len() ==> (#[trigger] model[j]).0 > i,
        decreases p,
    {
        p = p - 1;
    }
    proof {
        lemma_placed(model, (i as nat, msg@), p as int);
    }
    list.insert(p, (i, msg));
    assert(numbered_models(list@) =~= model.insert(p as int, (i as nat, msg@)));
}

fn collect_numbered<'a>(doc: &'a Record) -> (r: Vec<(usize, &'a Record)>)
    ensures
        numbered_models(r@) == numbered_messages(doc@),
{
    let mut out: Vec<(usize, &'a Record)> = Vec::new();
    let mut k: usize = 0;
    assert(numbered_models(out@) =~= Seq::empty());
    while k < doc.fields.len()
        invariant
            k <= doc.fields@.len(),
            numbered_models(out@) == numbered_messages(doc@.take(k as int)),
        decreases doc.fields@.len() - k,
    {
        proof {
            assert(doc@.take(k + 1).drop_last() =~= doc@.take(k as int));
            assert(doc@.take(k + 1).last() == doc@[k as int]);
        }
        if let Value::Nested(msg) = &doc.fields[k].1 {
            if let Some(i) = message_number(doc.fields[k].0.as_str()) {
                place(&mut out, i, msg);
            }
        }
        k = k + 1;
    }
    assert(doc@.take(k as int) =~= doc@);
    out
}

fn collect_identified<'a>(doc: &'a Record) -> (r: Vec<&'a Record>)
    ensures
        record_models(r@) == identified_messages(doc@),
{
    let mut out: Vec<&'a Record> = Vec::new();
    let mut k: usize = 0;
    assert(record_models(out@) =~= Seq::empty());
    while k < doc.fields.len()
        invariant
            k <= doc.fields@.len(),
            record_models(out@) == identified_messages(doc@.take(k as int)),
        decreases doc.fields@.len() - k,
    {
        proof {
            assert(doc@.take(k + 1).drop_last() =~= doc@.take(k as int));
            assert(doc@.take(k + 1).last() == doc@[k as int]);
        }
        if let Value::Nested(msg) = &doc.fields[k].1 {
            if msg.contains_key("ID") {
                let ghost before = out@;
                out.push(msg);
                assert(record_models(out@) =~= record_models(before).push(msg@));
            }
        }
        k = k + 1;
    }
    assert(doc@.take(k as int) =~= doc@);
    out
}

/// The messages that a document holds.
pub fn collect_messages<'a>(doc: &'a Record) -> (r: Vec<&'a Record>)
    ensures
        record_models(r@) == messages(doc@),
{
    if doc.contains_key("ID") {
        let mut out: Vec<&'a Record> = Vec::new();
        out.push(doc);
        assert(record_models(out@) =~= seq![doc@]);
        return out;
    }
    let count: i32 = match get_i32(doc, "mc") {
        Some(n) => if n < 0 {
            0
        } else {
            n
        },
        None => 0,
    };
    let counted = collect_counted(doc, count);
    assert(record_models(counted@).len() == counted@.len());
    if counted.len() > 0 {
        return counted;
    }
    let by_number = collect_numbered(doc);
    assert(numbered_models(by_number@).len() == by_number@.len());
    if by_number.len() > 0 {
        let mut out: Vec<&'a Record> = Vec::new();
        let mut k: usize = 0;
        while k < by_number.len()
            invariant
                k <= by_number@.len(),
                out@.len() == k,
                forall|j: int| 0 <= j < k ==> (#[trigger] out@[j])@ == by_number@[j].1@,
            decreases by_number@.len() - k,
        {
            out.push(by_number[k].1);
            k = k + 1;
        }
        assert(record_models(out@) =~= without_numbers(numbered_models(by_number@)));
        return out;
    }
    collect_identified(doc)
}

} // verus!

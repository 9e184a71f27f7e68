//! What holds of documents and their fields.

use vstd::prelude::*;

use crate::record::{
    access_error_text, field, field_document, field_i32, field_str, AccessError, Record,
    RecordModel, Value, ValueModel,
};

verus! {

/// A field is found by its name: the value is that of the first field with the name, and none is
/// found exactly if no field has the name.
pub proof fn lemma_first_field_is_found(record: RecordModel, key: Seq<char>)
    ensures
        match field(record, key) {
            Some(value) => exists|i: int|
                0 <= i < record.len() && record[i].0 == key && (#[trigger] record[i]).1 == value && (
                forall|j: int| 0 <= j < i ==> (#[trigger] record[j]).0 != key),
            None => forall|i: int| 0 <= i < record.len() ==> (#[trigger] record[i]).0 != key,
        },
    decreases record.len(),
{
    if record.len() > 0 {
        if record.first().0 == key {
            assert(record[0].1 == record.first().1);
        } else {
            let rest = record.drop_first();
            lemma_first_field_is_found(rest, key);
            assert forall|j: int| 0 < j < record.len() implies #[trigger] record[j] == rest[j - 1] by {}
            match field(rest, key) {
                Some(value) => {
                    let i = choose|i: int|
                        0 <= i < rest.len() && rest[i].0 == key && (#[trigger] rest[i]).1 == value
                            && (forall|j: int| 0 <= j < i ==> (#[trigger] rest[j]).0 != key);
                    assert(record[i + 1] == rest[i]);
                    assert forall|j: int| 0 <= j < i + 1 implies (#[trigger] record[j]).0 != key by {
                        if j > 0 {
                            assert(record[j] == rest[j - 1]);
                        }
                    }
                },
                None => {},
            }
        }
    }
}

/// A field that is put in front of a document is found under its name, and hides none under
/// another name.
pub proof fn lemma_field_in_front(
    record: RecordModel,
    name: Seq<char>,
    value: ValueModel,
    key: Seq<char>,
)
    ensures
        field(seq![(name, value)] + record, key) == if name == key {
            Some(value)
        } else {
            field(record, key)
        },
{
    assert((seq![(name, value)] + record).drop_first() =~= record);
}

/// A field is read as a text, a document or a number exactly if it holds one; why it could not be
/// read says whether it is there.
pub proof fn lemma_fields_are_typed(record: RecordModel, key: Seq<char>)
    ensures
        forall|s: Seq<char>| #[trigger]
            field(record, key) == Some(ValueModel::Text(s)) <==> field_str(record, key) == Some(s),
        forall|d: RecordModel|
            field(record, key) == Some(ValueModel::Nested(d)) <==> #[trigger] field_document(
                record,
                key,
            ) == Ok::<RecordModel, AccessError>(d),
        forall|n: i32|
            field(record, key) == Some(ValueModel::Int32(n)) <==> #[trigger] field_i32(record, key)
                == Ok::<i32, AccessError>(n),
        field(record, key) is None <==> field_document(record, key) == Err::<
            RecordModel,
            AccessError,
        >(AccessError::NotPresent),
        field(record, key) is None <==> field_i32(record, key) == Err::<i32, AccessError>(
            AccessError::NotPresent,
        ),
        field(record, key) is None ==> field_str(record, key) is None,
{
}

/// The two reasons why a field could not be read have texts of their own.
pub proof fn lemma_access_errors_have_texts()
    ensures
        access_error_text(AccessError::NotPresent) == "field is not present"@,
        access_error_text(AccessError::UnexpectedType) == "field does not have the expected type"@,
{
}

/// A document stands for its fields, in order, each by its name and its value.
pub proof fn lemma_record_stands_for_its_fields(record: Record)
    ensures
        record@.len() == record.fields@.len(),
        forall|i: int|
            0 <= i < record@.len() ==> (#[trigger] record@[i]) == (
                record.fields@[i].0@,
                record.fields@[i].1@,
            ),
{
}

/// A value stands for what it holds.
pub proof fn lemma_value_stands_for_its_content(value: Value)
    ensures
        value matches Value::Double(bits) ==> value@ == ValueModel::Double(bits),
        value matches Value::Text(s) ==> value@ == ValueModel::Text(s@),
        value matches Value::Nested(r) ==> value@ == ValueModel::Nested(r@),
        value matches Value::Boolean(b) ==> value@ == ValueModel::Boolean(b),
        value matches Value::Int32(n) ==> value@ == ValueModel::Int32(n),
        value matches Value::Int64(n) ==> value@ == ValueModel::Int64(n),
        value matches Value::Binary(b) ==> value@ == ValueModel::Binary(b@),
        value matches Value::ObjectId(b) ==> value@ == ValueModel::ObjectId(b@),
        value is Other ==> value@ == ValueModel::Other,
{
}

} // verus!

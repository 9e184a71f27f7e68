//! Documents as the overlay reads them: named fields in order, with the values it tells apart.

use vstd::prelude::*;

use crate::text::same_text;

verus! {

/// A value of a document field.
#[derive(Debug, PartialEq)]
pub enum Value {
    /// A double, by its bits.
    Double(u64),
    Text(String),
    Nested(Record),
    Boolean(bool),
    Int32(i32),
    Int64(i64),
    /// The bytes of a binary value.
    Binary(Vec<u8>),
    /// The bytes of an object id.
    ObjectId(Vec<u8>),
    /// Any other kind of value.
    Other,
}

/// A document: its fields, in order.
#[derive(Debug, PartialEq)]
pub struct Record {
    pub fields: Vec<(String, Value)>,
}

/// What a `Value` stands for.
#[verifier::ext_equal]
pub enum ValueModel {
    Double(u64),
    Text(Seq<char>),
    Nested(Seq<(Seq<char>, ValueModel)>),
    Boolean(bool),
    Int32(i32),
    Int64(i64),
    Binary(Seq<u8>),
    ObjectId(Seq<u8>),
    Other,
}

/// What a `Record` stands for: the names of its fields with their values, in order.
pub type RecordModel = Seq<(Seq<char>, ValueModel)>;

/// What `value` stands for.
pub open spec fn value_model(value: Value) -> ValueModel
    decreases value,
{
    match value {
        Value::Double(bits) => ValueModel::Double(bits),
        Value::Text(s) => ValueModel::Text(s@),
        Value::Nested(r) => ValueModel::Nested(record_model(r)),
        Value::Boolean(b) => ValueModel::Boolean(b),
        Value::Int32(n) => ValueModel::Int32(n),
        Value::Int64(n) => ValueModel::Int64(n),
        Value::Binary(b) => ValueModel::Binary(b@),
        Value::ObjectId(b) => ValueModel::ObjectId(b@),
        Value::Other => ValueModel::Other,
    }
}

/// What `record` stands for.
pub open spec fn record_model(record: Record) -> RecordModel
    decreases record,
{
    Seq::new(
        record.fields@.len(),
        |i: int|
            if 0 <= i < record.fields@.len() {
                (record.fields@[i].0@, value_model(record.fields@[i].1))
            } else {
                arbitrary()
            },
    )
}

impl View for Value {
    type V = ValueModel;

    open spec fn view(&self) -> ValueModel {
        value_model(*self)
    }
}

impl View for Record {
    type V = RecordModel;

    open spec fn view(&self) -> RecordModel {
        record_model(*self)
    }
}

/// The value of the first field with the name `key`.
pub open spec fn field(record: RecordModel, key: Seq<char>) -> Option<ValueModel>
    decreases record.len(),
{
    if record.len() == 0 {
        None
    } else if record.first().0 == key {
        Some(record.first().1)
    } else {
        field(record.drop_first(), key)
    }
}

/// The text of the field `key`, where it holds a string.
pub open spec fn field_str(record: RecordModel, key: Seq<char>) -> Option<Seq<char>> {
    match field(record, key) {
        Some(ValueModel::Text(s)) => Some(s),
        _ => None,
    }
}

proof fn lemma_field_step(record: RecordModel, key: Seq<char>, i: int)
    requires
        0 <= i < record.len(),
    ensures
        field(record.skip(i), key) == if record[i].0 == key {
            Some(record[i].1)
        } else {
            field(record.skip(i + 1), key)
        },
{
    assert(record.skip(i).first() == record[i]);
    assert(record.skip(i).drop_first() =~= record.skip(i + 1));
}

/// Why a field could not be read as the type asked for.
#[derive(Debug, Clone, Copy, PartialEq, Eq)]
pub enum AccessError {
    NotPresent,
    UnexpectedType,
}

/// The text that describes an access error.
pub open spec fn access_error_text(e: AccessError) -> Seq<char> {
    match e {
        AccessError::NotPresent => "field is not present"@,
        AccessError::UnexpectedType => "field does not have the expected type"@,
    }
}

impl AccessError {
    /// The text that describes the error.
    pub fn text(self) -> (r: &'static str)
        ensures
            r@ == access_error_text(self),
    {
        match self {
            AccessError::NotPresent => "field is not present",
            AccessError::UnexpectedType => "field does not have the expected type",
        }
    }
}

/// The document in the field `key`.
pub open spec fn field_document(record: RecordModel, key: Seq<char>) -> Result<
    RecordModel,
    AccessError,
> {
    match field(record, key) {
        Some(ValueModel::Nested(d)) => Ok(d),
        Some(_) => Err(AccessError::UnexpectedType),
        None => Err(AccessError::NotPresent),
    }
}

/// The 32-bit integer in the field `key`.
pub open spec fn field_i32(record: RecordModel, key: Seq<char>) -> Result<i32, AccessError> {
    match field(record, key) {
        Some(ValueModel::Int32(n)) => Ok(n),
        Some(_) => Err(AccessError::UnexpectedType),
        None => Err(AccessError::NotPresent),
    }
}

impl Record {
    /// The value of the first field with the name `key`.
    pub fn get(&self, key: &str) -> (r: Option<&Value>)
        ensures
            match r {
                Some(v) => field(self@, key@) == Some(v@),
                None => field(self@, key@) is None,
            },
    {
        let mut i: usize = 0;
        assert(self@.skip(0) =~= self@);
        while i < self.fields.len()
            invariant
                i <= self.fields@.len(),
                field(self@, key@) == field(self@.skip(i as int), key@),
            decreases self.fields@.len() - i,
        {
            proof {
                lemma_field_step(self@, key@, i as int);
            }
            if same_text(self.fields[i].0.as_str(), key) {
                return Some(&self.fields[i].1);
            }
            i = i + 1;
        }
        None
    }

    /// Whether there is a field with the name `key`.
    pub fn contains_key(&self, key: &str) -> (r: bool)
        ensures
            r == (field(self@, key@) is Some),
    {
        self.get(key).is_some()
    }

    /// The text of the field `key`, where it holds a string.
    pub fn get_str(&self, key: &str) -> (r: Option<&String>)
        ensures
            match r {
                Some(s) => field_str(self@, key@) == Some(s@),
                None => field_str(self@, key@) is None,
            },
    {
        match self.get(key) {
            Some(Value::Text(s)) => Some(s),
            _ => None,
        }
    }

    /// The document in the field `key`.
    pub fn get_document(&self, key: &str) -> (r: Result<&Record, AccessError>)
        ensures
            match r {
                Ok(d) => field_document(self@, key@) == Ok::<RecordModel, AccessError>(d@),
                Err(e) => field_document(self@, key@) == Err::<RecordModel, AccessError>(e),
            },
    {
        match self.get(key) {
            Some(Value::Nested(d)) => Ok(d),
            Some(_) => Err(AccessError::UnexpectedType),
            None => Err(AccessError::NotPresent),
        }
    }

    /// The 32-bit integer in the field `key`.
    pub fn get_i32(&self, key: &str) -> (r: Result<i32, AccessError>)
        ensures
            r == field_i32(self@, key@),
    {
        match self.get(key) {
            Some(Value::Int32(n)) => Ok(*n),
            Some(_) => Err(AccessError::UnexpectedType),
            None => Err(AccessError::NotPresent),
        }
    }
}

} // verus!

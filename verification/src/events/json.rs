//! JSON values as far as event payloads are inspected.

use vstd::prelude::*;

use crate::text::same_text;

verus! {

/// A JSON value. Numbers keep the form in which they were written: unsigned,
/// negative, or with a fraction or an exponent, as the bits of a 64-bit
/// floating-point number.
#[derive(Debug)]
pub enum Json {
    Null,
    Bool(bool),
    Unsigned(u64),
    Negative(i64),
    Fractional { bits: u64 },
    Text(String),
    Array(Vec<Json>),
    Object(Vec<JsonField>),
}

/// A named member of a JSON object.
#[derive(Debug)]
pub struct JsonField {
    pub name: String,
    pub value: Json,
}

/// The value of the first member of that name, from position `from` on.
pub open spec fn member_from(fields: Seq<JsonField>, name: Seq<char>, from: int) -> Option<Json>
    decreases fields.len() - from,
{
    if from < 0 || from >= fields.len() {
        None
    } else if fields[from].name@ == name {
        Some(fields[from].value)
    } else {
        member_from(fields, name, from + 1)
    }
}

/// The value of the member of that name.
pub open spec fn member(value: Json, name: Seq<char>) -> Option<Json> {
    match value {
        Json::Object(fields) => member_from(fields@, name, 0),
        _ => None,
    }
}

/// The text of a member that is a string.
pub open spec fn text_member(value: Json, name: Seq<char>) -> Option<Seq<char>> {
    match member(value, name) {
        Some(Json::Text(s)) => Some(s@),
        _ => None,
    }
}

/// The value of a member that is an unsigned number of 32 bits.
pub open spec fn number_member(value: Json, name: Seq<char>) -> Option<u32> {
    match member(value, name) {
        Some(Json::Unsigned(n)) => if n <= u32::MAX {
            Some(n as u32)
        } else {
            None
        },
        _ => None,
    }
}

/// The value of a member that is a signed number of 64 bits.
pub open spec fn integer_member(value: Json, name: Seq<char>) -> Option<i64> {
    match member(value, name) {
        Some(Json::Unsigned(n)) => if n <= i64::MAX {
            Some(n as i64)
        } else {
            None
        },
        Some(Json::Negative(n)) => Some(n),
        _ => None,
    }
}

impl Json {
    /// The value of the member of that name.
    pub fn get(&self, name: &str) -> (r: Option<&Json>)
        ensures
            match member(*self, name@) {
                Some(v) => r is Some && *r->0 == v,
                None => r is None,
            },
    {
        match self {
            Json::Object(fields) => {
                let mut i: usize = 0;
                while i < fields.len()
                    invariant
                        0 <= i <= fields@.len(),
                        member(*self, name@) == member_from(fields@, name@, i as int),
                    decreases fields.len() - i,
                {
                    if same_text(&fields[i].name, name) {
                        return Some(&fields[i].value);
                    }
                    i += 1;
                }
                None
            },
            _ => None,
        }
    }

    /// The text of a member that is a string.
    pub fn get_text(&self, name: &str) -> (r: Option<&String>)
        ensures
            match text_member(*self, name@) {
                Some(t) => r is Some && r->0@ == t,
                None => r is None,
            },
    {
        match self.get(name) {
            Some(Json::Text(s)) => Some(s),
            _ => None,
        }
    }

    /// The value of a member that is an unsigned number of 32 bits.
    pub fn get_number(&self, name: &str) -> (r: Option<u32>)
        ensures
            r == number_member(*self, name@),
    {
        match self.get(name) {
            Some(Json::Unsigned(n)) => {
                if *n <= u32::MAX as u64 {
                    Some(*n as u32)
                } else {
                    None
                }
            },
            _ => None,
        }
    }

    /// The value of a member that is a signed number of 64 bits.
    pub fn get_integer(&self, name: &str) -> (r: Option<i64>)
        ensures
            r == integer_member(*self, name@),
    {
        match self.get(name) {
            Some(Json::Unsigned(n)) => {
                if *n <= i64::MAX as u64 {
                    Some(*n as i64)
                } else {
                    None
                }
            },
            Some(Json::Negative(n)) => Some(*n),
            _ => None,
        }
    }
}

} // verus!

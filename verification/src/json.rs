//! JSON values, as far as tool results are read and denials are described with them.

use vstd::prelude::*;

verus! {

/// A JSON value.
#[derive(Debug)]
pub enum JsonValue {
    Null,
    Bool(bool),
    /// A number, by its decimal text.
    Number(String),
    String(String),
    Array(Vec<JsonValue>),
    /// The members of an object. A name that occurs twice means its first member.
    Object(Vec<(String, JsonValue)>),
}

/// The value of the first member called `name`.
pub open spec fn first_member(members: Seq<(String, JsonValue)>, name: Seq<char>) -> Option<
    JsonValue,
>
    decreases members.len(),
{
    if members.len() == 0 {
        None
    } else if members[0].0@ == name {
        Some(members[0].1)
    } else {
        first_member(members.skip(1), name)
    }
}

impl JsonValue {
    /// The member called `name`: none of a value that is not an object.
    pub open spec fn member(self, name: Seq<char>) -> Option<JsonValue> {
        match self {
            JsonValue::Object(members) => first_member(members@, name),
            _ => None,
        }
    }

    /// Whether the value is the given text.
    pub open spec fn is_text(self, text: Seq<char>) -> bool {
        self matches JsonValue::String(s) && s@ == text
    }

    /// Whether a tool result reports a failure: its `isError` is `true`, or its `content` is an
    /// array that has an item whose `type` is `"error"`.
    pub open spec fn reports_failure(self) -> bool {
        ||| self.member("isError"@) == Some(JsonValue::Bool(true))
        ||| self.member("content"@) matches Some(JsonValue::Array(items)) && exists|i: int|
            0 <= i < items@.len() && is_error_item(#[trigger] items@[i])
    }

    /// The member called `name`.
    pub fn get(&self, name: &str) -> (value: Option<&JsonValue>)
        ensures
            match value {
                Some(v) => self.member(name@) == Some(*v),
                None => self.member(name@) is None,
            },
    {
        match self {
            JsonValue::Object(members) => {
                let wanted: String = name.to_owned();
                let mut i: usize = 0;
                assert(members@.skip(0) =~= members@);
                while i < members.len()
                    invariant
                        i <= members@.len(),
                        wanted@ == name@,
                        self.member(name@) == first_member(members@.skip(i as int), name@),
                    decreases members@.len() - i,
                {
                    if members[i].0 == wanted {
                        return Some(&members[i].1);
                    }
                    assert(members@.skip(i as int).skip(1) =~= members@.skip(i + 1));
                    i = i + 1;
                }
                None
            },
            _ => None,
        }
    }

    /// The boolean that the value is.
    pub fn as_bool(&self) -> (value: Option<bool>)
        ensures
            match value {
                Some(b) => *self == JsonValue::Bool(b),
                None => !(self is Bool),
            },
    {
        match self {
            JsonValue::Bool(b) => Some(*b),
            _ => None,
        }
    }

    /// The items of the array that the value is.
    pub fn as_array(&self) -> (value: Option<&Vec<JsonValue>>)
        ensures
            match value {
                Some(items) => *self == JsonValue::Array(*items),
                None => !(self is Array),
            },
    {
        match self {
            JsonValue::Array(items) => Some(items),
            _ => None,
        }
    }

    /// The string that the value is.
    pub fn as_str(&self) -> (value: Option<&String>)
        ensures
            match value {
                Some(s) => *self == JsonValue::String(*s),
                None => !(self is String),
            },
    {
        match self {
            JsonValue::String(s) => Some(s),
            _ => None,
        }
    }
}

/// Whether a content item is an error report.
pub open spec fn is_error_item(item: JsonValue) -> bool {
    item.member("type"@) matches Some(kind) && kind.is_text("error"@)
}

} // verus!

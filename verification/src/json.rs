//! JSON values, as far as they are read here.
//!
//! A value is read, not written: it comes with the text that it is written as,
//! and [`is_written`] says that this is its compact text.

use vstd::prelude::*;
use vstd::string::*;

use crate::text::{hex_char, int_text, join, joined, views};

verus! {

/// A JSON number, in each of the forms in which it is read.
#[derive(Debug)]
pub struct JsonNumber {
    /// The number as an integer, when it is one that fits.
    pub integer: Option<i64>,
    /// The bits of the number as a double-precision float.
    pub double_bits: u64,
    /// The double-precision float as it is displayed.
    pub double_text: String,
}

/// What a JSON value holds.
#[derive(Debug)]
pub enum JsonValue {
    /// The absent value.
    Null,
    /// A truth value.
    Bool(bool),
    /// A number.
    Number(JsonNumber),
    /// A string.
    Text(String),
    /// A list of values.
    Array(Vec<Json>),
    /// Named values, in the order in which they are written.
    Object(Vec<(String, Json)>),
}

/// A JSON value.
#[derive(Debug)]
pub struct Json {
    /// The value as compact JSON text.
    pub text: String,
    /// What it holds.
    pub value: JsonValue,
}

/// The value of the first entry named `key`.
pub open spec fn entry_value(entries: Seq<(String, Json)>, key: Seq<char>) -> Option<Json>
    decreases entries.len(),
{
    if entries.len() == 0 {
        None
    } else if entries[0].0@ == key {
        Some(entries[0].1)
    } else {
        entry_value(entries.drop_first(), key)
    }
}

/// The two characters of a short JSON escape.
pub open spec fn short_escape(c: char) -> Seq<char> {
    seq!['\\', c]
}

/// How a character is written inside a JSON string.
pub open spec fn escaped_char(c: char) -> Seq<char> {
    if c == '"' {
        short_escape('"')
    } else if c == '\\' {
        short_escape('\\')
    } else if c as int == 8 {
        short_escape('b')
    } else if c as int == 9 {
        short_escape('t')
    } else if c as int == 10 {
        short_escape('n')
    } else if c as int == 12 {
        short_escape('f')
    } else if c as int == 13 {
        short_escape('r')
    } else if (c as int) < 32 {
        seq!['\\', 'u', '0', '0', hex_char(c as int / 16), hex_char(c as int % 16)]
    } else {
        seq![c]
    }
}

/// How a text is written inside a JSON string.
pub open spec fn escaped(text: Seq<char>) -> Seq<char>
    decreases text.len(),
{
    if text.len() == 0 {
        Seq::empty()
    } else {
        escaped(text.drop_last()) + escaped_char(text.last())
    }
}

/// A text as a JSON string.
pub open spec fn quoted(text: Seq<char>) -> Seq<char> {
    seq!['"'] + escaped(text) + seq!['"']
}

/// The compact text of a list of the given values.
pub open spec fn array_text(items: Seq<Json>) -> Seq<char> {
    seq!['['] + joined(Seq::new(items.len(), |i: int| items[i].text@), seq![',']) + seq![']']
}

/// The compact text of an entry of an object.
pub open spec fn entry_text(entry: (String, Json)) -> Seq<char> {
    quoted(entry.0@) + seq![':'] + entry.1.text@
}

/// The compact text of an object with the given entries.
pub open spec fn object_text(entries: Seq<(String, Json)>) -> Seq<char> {
    seq!['{'] + joined(Seq::new(entries.len(), |i: int| entry_text(entries[i])), seq![',']) + seq![
        '}',
    ]
}

/// Whether `text` is the compact text of a value: that of each value that it
/// holds, in their order, with no space between them.
///
/// Nothing is said of how a number is written that is not an integer or does not
/// fit.
pub open spec fn is_text_of(text: Seq<char>, value: JsonValue) -> bool
    decreases value,
{
    match value {
        JsonValue::Null => text == "null"@,
        JsonValue::Bool(b) => text == if b {
            "true"@
        } else {
            "false"@
        },
        JsonValue::Number(number) => match number.integer {
            Some(n) => text == int_text(n as int),
            None => true,
        },
        JsonValue::Text(held) => text == quoted(held@),
        JsonValue::Array(items) => {
            &&& text == array_text(items@)
            &&& forall|i: int|
                0 <= i < items@.len() ==> is_text_of(
                    (#[trigger] items@[i]).text@,
                    items@[i].value,
                )
        },
        JsonValue::Object(entries) => {
            &&& text == object_text(entries@)
            &&& forall|i: int|
                0 <= i < entries@.len() ==> is_text_of(
                    (#[trigger] entries@[i]).1.text@,
                    entries@[i].1.value,
                )
        },
    }
}

/// Whether `text` is the compact text of an object with the given entries.
pub open spec fn is_text_of_object(text: Seq<char>, entries: Seq<(String, Json)>) -> bool {
    &&& text == object_text(entries)
    &&& forall|i: int|
        0 <= i < entries.len() ==> is_text_of(
            (#[trigger] entries[i]).1.text@,
            entries[i].1.value,
        )
}

/// Whether a value comes with its own compact text.
pub open spec fn is_written(json: Json) -> bool {
    is_text_of(json.text@, json.value)
}

/// The entries that have a value.
pub open spec fn non_null(entries: Seq<(String, Json)>) -> Seq<(String, Json)>
    decreases entries.len(),
{
    if entries.len() == 0 {
        Seq::empty()
    } else if entries.last().1.value is Null {
        non_null(entries.drop_last())
    } else {
        non_null(entries.drop_last()).push(entries.last())
    }
}

/// Whether `text` is the compact text of a value without the entries of an object
/// that are null.
pub open spec fn is_text_without_nulls(text: Seq<char>, value: JsonValue) -> bool {
    match value {
        JsonValue::Object(entries) => is_text_of_object(text, non_null(entries@)),
        _ => is_text_of(text, value),
    }
}

/// The text of a value, without the entries of an object that are null.
pub open spec fn text_without_nulls(json: Json) -> Seq<char> {
    match json.value {
        JsonValue::Object(entries) => object_text(non_null(entries@)),
        _ => json.text@,
    }
}

/// Writes a text as a JSON string.
///
/// This is `serde_json::to_string` on a `str`. It is trusted to give the text
/// between double quotes, with a backslash escape for a quote, a backslash and
/// each control character below `U+0020`, and to fail on no text.
#[verifier::external_body]
fn json_string(text: &str) -> (r: String)
    ensures
        r@ == quoted(text@),
{
    serde_json::to_string(text).expect("a string serializes")
}

impl Json {
    /// The value under `key`, for an object.
    pub open spec fn field(self, key: Seq<char>) -> Option<Json> {
        match self.value {
            JsonValue::Object(entries) => entry_value(entries@, key),
            _ => None,
        }
    }

    /// The integer under `key`.
    pub open spec fn integer_field(self, key: Seq<char>) -> Option<i64> {
        match self.field(key) {
            Some(Json { value: JsonValue::Number(number), .. }) => number.integer,
            _ => None,
        }
    }

    /// The number under `key`.
    pub open spec fn number_field(self, key: Seq<char>) -> Option<JsonNumber> {
        match self.field(key) {
            Some(Json { value: JsonValue::Number(number), .. }) => Some(number),
            _ => None,
        }
    }

    /// The text under `key`.
    pub open spec fn text_field(self, key: Seq<char>) -> Option<Seq<char>> {
        match self.field(key) {
            Some(Json { value: JsonValue::Text(text), .. }) => Some(text@),
            _ => None,
        }
    }

    /// The length of the list under `key`.
    pub open spec fn list_field(self, key: Seq<char>) -> Option<nat> {
        match self.field(key) {
            Some(Json { value: JsonValue::Array(items), .. }) => Some(items@.len()),
            _ => None,
        }
    }

    /// Looks up the value under `key`; only an object has one.
    pub fn get(&self, key: &str) -> (r: Option<&Json>)
        ensures
            match r {
                Some(value) => self.field(key@) == Some(*value),
                None => self.field(key@) is None,
            },
    {
        match &self.value {
            JsonValue::Object(entries) => {
                let wanted = key.to_owned();
                let mut i: usize = 0;
                proof {
                    assert(entries@.skip(0) =~= entries@);
                }
                while i < entries.len()
                    invariant
                        self.value == JsonValue::Object(*entries),
                        wanted@ == key@,
                        i <= entries.len(),
                        entry_value(entries@, key@) == entry_value(entries@.skip(i as int), key@),
                    decreases entries.len() - i,
                {
                    proof {
                        assert(entries@.skip(i as int).drop_first() =~= entries@.skip(i + 1));
                    }
                    if entries[i].0 == wanted {
                        return Some(&entries[i].1);
                    }
                    i = i + 1;
                }
                None
            },
            _ => None,
        }
    }

    /// Looks up the number under `key`.
    pub fn get_number(&self, key: &str) -> (r: Option<&JsonNumber>)
        ensures
            match r {
                Some(number) => self.number_field(key@) == Some(*number),
                None => self.number_field(key@) is None,
            },
    {
        match self.get(key) {
            Some(Json { value: JsonValue::Number(number), .. }) => Some(number),
            _ => None,
        }
    }

    /// Looks up the integer under `key`.
    pub fn get_integer(&self, key: &str) -> (r: Option<i64>)
        ensures
            r == self.integer_field(key@),
    {
        match self.get(key) {
            Some(Json { value: JsonValue::Number(number), .. }) => number.integer,
            _ => None,
        }
    }

    /// Looks up the text under `key`.
    pub fn get_text(&self, key: &str) -> (r: Option<&String>)
        ensures
            match r {
                Some(text) => self.text_field(key@) == Some(text@),
                None => self.text_field(key@) is None,
            },
    {
        match self.get(key) {
            Some(Json { value: JsonValue::Text(text), .. }) => Some(text),
            _ => None,
        }
    }

    /// Looks up the length of the list under `key`.
    pub fn get_list_len(&self, key: &str) -> (r: Option<usize>)
        ensures
            match r {
                Some(length) => self.list_field(key@) == Some(length as nat),
                None => self.list_field(key@) is None,
            },
    {
        match self.get(key) {
            Some(Json { value: JsonValue::Array(items), .. }) => Some(items.len()),
            _ => None,
        }
    }

    /// Writes the value without the entries of an object that are null.
    pub fn without_nulls(&self) -> (r: String)
        ensures
            r@ == text_without_nulls(*self),
    {
        match &self.value {
            JsonValue::Object(entries) => {
                let mut parts: Vec<String> = Vec::new();
                let mut i: usize = 0;
                proof {
                    reveal_strlit("{");
                    reveal_strlit("}");
                    reveal_strlit(",");
                    reveal_strlit(":");
                    assert("{"@ =~= seq!['{']);
                    assert("}"@ =~= seq!['}']);
                    assert(","@ =~= seq![',']);
                    assert(":"@ =~= seq![':']);
                    assert(non_null(entries@.take(0)) =~= Seq::<(String, Json)>::empty());
                }
                while i < entries.len()
                    invariant
                        ":"@ == seq![':'],
                        i <= entries.len(),
                        views(parts@) == Seq::new(
                            non_null(entries@.take(i as int)).len(),
                            |k: int| entry_text(non_null(entries@.take(i as int))[k]),
                        ),
                    decreases entries.len() - i,
                {
                    let ghost before = parts@;
                    proof {
                        assert(entries@.take(i + 1).drop_last() =~= entries@.take(i as int));
                        assert(entries@.take(i + 1).last() == entries@[i as int]);
                    }
                    let is_null = match &entries[i].1.value {
                        JsonValue::Null => true,
                        _ => false,
                    };
                    if !is_null {
                        let mut part = json_string(entries[i].0.as_str());
                        part.append(":");
                        part.append(entries[i].1.text.as_str());
                        parts.push(part);
                        proof {
                            assert(part@ == entry_text(entries@[i as int]));
                            assert(views(parts@) =~= views(before).push(part@));
                        }
                    }
                    proof {
                        let next = non_null(entries@.take(i + 1));
                        assert(views(parts@) =~= Seq::new(
                            next.len(),
                            |k: int| entry_text(next[k]),
                        ));
                    }
                    i = i + 1;
                }
                proof {
                    assert(entries@.take(entries.len() as int) =~= entries@);
                }
                let mut out = "{".to_owned();
                out.append(join(&parts, ",").as_str());
                out.append("}");
                out
            },
            _ => self.text.clone(),
        }
    }
}

} // verus!

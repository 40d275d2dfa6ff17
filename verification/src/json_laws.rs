//! What holds of every JSON value that comes with its text.

use vstd::prelude::*;

use crate::json::{
    array_text, entry_text, entry_value, escaped, is_text_of, is_text_without_nulls, is_written,
    non_null, object_text, quoted, text_without_nulls, Json, JsonNumber, JsonValue,
};
use crate::report::retry_cause_text;
use crate::text::int_text;
use crate::text_laws::{law_hexadecimal_digits, law_parts_are_joined};

verus! {

/// A value has one compact text, unless it is a number that is not an integer or
/// does not fit.
pub proof fn law_a_value_has_one_text(value: JsonValue, a: Seq<char>, b: Seq<char>)
    requires
        value matches JsonValue::Number(number) ==> number.integer is Some,
        is_text_of(a, value),
        is_text_of(b, value),
    ensures
        a == b,
{
}

/// A patch holds every entry of a sample that is not null, and no other: a null
/// would delete what was recorded before.
pub proof fn law_patches_omit_nulls(entries: Seq<(String, Json)>)
    ensures
        forall|i: int|
            0 <= i < non_null(entries).len() ==> !((#[trigger] non_null(entries)[i]).1.value is Null)
                && entries.contains(non_null(entries)[i]),
        forall|i: int|
            0 <= i < entries.len() && !((#[trigger] entries[i]).1.value is Null) ==> non_null(
                entries,
            ).contains(entries[i]),
    decreases entries.len(),
{
    if entries.len() > 0 {
        let rest = entries.drop_last();
        let last = entries.last();
        let kept = non_null(entries);
        law_patches_omit_nulls(rest);
        assert forall|i: int| 0 <= i < kept.len() implies !((#[trigger] kept[i]).1.value is Null)
            && entries.contains(kept[i]) by {
            if i < non_null(rest).len() {
                assert(kept[i] == non_null(rest)[i]);
                let k = choose|k: int| 0 <= k < rest.len() && rest[k] == kept[i];
                assert(entries[k] == kept[i]);
            } else {
                assert(entries[entries.len() - 1] == kept[i]);
            }
        }
        assert forall|i: int| 0 <= i < entries.len() && !((#[trigger] entries[i]).1.value is Null) implies
            kept.contains(entries[i]) by {
            if i < rest.len() {
                assert(rest[i] == entries[i]);
                let k = choose|k: int|
                    0 <= k < non_null(rest).len() && non_null(rest)[k] == entries[i];
                assert(kept[k] == entries[i]);
            } else {
                assert(kept[kept.len() - 1] == entries[i]);
            }
        }
    }
}

/// The patch for a sample is the compact text of the same object without its
/// null entries; a sample that is no object is written as it is.
pub proof fn law_patches_are_written(usage: Json)
    requires
        is_written(usage),
    ensures
        is_text_without_nulls(text_without_nulls(usage), usage.value),
{
    match usage.value {
        JsonValue::Object(entries) => {
            let kept = non_null(entries@);
            law_patches_omit_nulls(entries@);
            assert forall|i: int| 0 <= i < kept.len() implies is_text_of(
                (#[trigger] kept[i]).1.text@,
                kept[i].1.value,
            ) by {
                let k = choose|k: int| 0 <= k < entries@.len() && entries@[k] == kept[i];
                assert(is_text_of(entries@[k].1.text@, entries@[k].1.value));
            }
        },
        _ => {},
    }
}

/// A sample without null entries is its own patch.
pub proof fn law_complete_samples_are_their_patch(usage: Json)
    requires
        is_written(usage),
        usage.value matches JsonValue::Object(entries) ==> forall|i: int|
            0 <= i < entries@.len() ==> !((#[trigger] entries@[i]).1.value is Null),
    ensures
        text_without_nulls(usage) == usage.text@,
{
    match usage.value {
        JsonValue::Object(entries) => {
            lemma_all_non_null(entries@);
        },
        _ => {},
    }
}

/// Where no entry is null, all are kept.
proof fn lemma_all_non_null(entries: Seq<(String, Json)>)
    requires
        forall|i: int| 0 <= i < entries.len() ==> !((#[trigger] entries[i]).1.value is Null),
    ensures
        non_null(entries) == entries,
    decreases entries.len(),
{
    if entries.len() > 0 {
        let rest = entries.drop_last();
        assert forall|i: int| 0 <= i < rest.len() implies !((#[trigger] rest[i]).1.value is Null) by {
            assert(rest[i] == entries[i]);
        }
        lemma_all_non_null(rest);
        assert(non_null(entries) =~= entries);
    }
}

/// A retry cause without a kind is displayed as its compact text.
pub proof fn law_causes_without_a_kind_are_shown_whole(cause: Json, text: Seq<char>)
    requires
        cause.text_field("kind"@) is None,
        cause.value matches JsonValue::Number(number) ==> number.integer is Some,
        is_written(cause),
        is_text_of(text, cause.value),
    ensures
        retry_cause_text(cause) == "retried: "@ + text,
{
    law_a_value_has_one_text(cause.value, cause.text@, text);
}

/// A key is looked up among the entries of an object: the first entry under it is
/// found, and nothing is found where there is none.
pub proof fn law_the_first_entry_is_found(entries: Seq<(String, Json)>, key: Seq<char>, at: int)
    ensures
        0 <= at < entries.len() && entries[at].0@ == key && (forall|j: int|
            0 <= j < at ==> (#[trigger] entries[j]).0@ != key) ==> entry_value(entries, key) == Some(
            entries[at].1,
        ),
        (forall|j: int| 0 <= j < entries.len() ==> (#[trigger] entries[j]).0@ != key)
            ==> entry_value(entries, key) is None,
    decreases entries.len(),
{
    if entries.len() > 0 {
        let rest = entries.drop_first();
        law_the_first_entry_is_found(rest, key, at - 1);
        assert forall|j: int| 0 <= j < rest.len() implies #[trigger] rest[j] == entries[j + 1] by {}
        if at > 0 && at < entries.len() {
            assert(rest[at - 1] == entries[at]);
        }
    }
}

/// A field is an entry of an object; what is no object has none. A number, an
/// integer, a text or the length of a list is found where the entry holds one, and
/// nothing is found where it holds something else.
pub proof fn law_fields_are_read_by_kind(json: Json, key: Seq<char>)
    ensures
        json.value matches JsonValue::Object(entries) ==> json.field(key) == entry_value(
            entries@,
            key,
        ),
        !(json.value is Object) ==> json.field(key) is None,
        json.field(key) is None ==> json.number_field(key) is None && json.integer_field(
            key,
        ) is None && json.text_field(key) is None && json.list_field(key) is None,
        json.field(key) matches Some(found) ==> {
            &&& json.number_field(key) == match found.value {
                JsonValue::Number(number) => Some(number),
                _ => None::<JsonNumber>,
            }
            &&& json.integer_field(key) == match found.value {
                JsonValue::Number(number) => number.integer,
                _ => None::<i64>,
            }
            &&& json.text_field(key) == match found.value {
                JsonValue::Text(text) => Some(text@),
                _ => None::<Seq<char>>,
            }
            &&& json.list_field(key) == match found.value {
                JsonValue::Array(items) => Some(items@.len()),
                _ => None::<nat>,
            }
        },
{
}

/// Whether a character stands for itself in a JSON string.
pub open spec fn is_plain(c: char) -> bool {
    c != '"' && c != '\\' && c as int >= 32
}

/// A text is quoted between two quotation marks, character by character: what is
/// plain stands for itself, and a quotation mark and a backslash are escaped.
pub proof fn law_texts_are_quoted(text: Seq<char>, c: char)
    ensures
        quoted(text) == "\""@ + escaped(text) + "\""@,
        escaped(Seq::empty()).len() == 0,
        is_plain(c) ==> escaped(text + seq![c]) == escaped(text) + seq![c],
        c == '"' ==> escaped(text + seq![c]) == escaped(text) + "\\\""@,
        c == '\\' ==> escaped(text + seq![c]) == escaped(text) + "\\\\"@,
        c == '\n' ==> escaped(text + seq![c]) == escaped(text) + "\\n"@,
        c == '\r' ==> escaped(text + seq![c]) == escaped(text) + "\\r"@,
        c == '\t' ==> escaped(text + seq![c]) == escaped(text) + "\\t"@,
        c as int == 8 ==> escaped(text + seq![c]) == escaped(text) + "\\b"@,
        c as int == 12 ==> escaped(text + seq![c]) == escaped(text) + "\\f"@,
        (c as int) < 32 && c as int != 8 && c as int != 9 && c as int != 10 && c as int != 12
            && c as int != 13 ==> escaped(text + seq![c]) == escaped(text) + "\\u00"@ + seq![
            "0123456789abcdef"@[c as int / 16],
            "0123456789abcdef"@[c as int % 16],
        ],
{
    if (c as int) < 32 {
        law_hexadecimal_digits(c as int / 16);
        law_hexadecimal_digits(c as int % 16);
        reveal_strlit("\\u00");
        let digits = seq!["0123456789abcdef"@[c as int / 16], "0123456789abcdef"@[c as int % 16]];
        assert("\\u00"@ + digits =~= seq!['\\', 'u', '0', '0', digits[0], digits[1]]);
        assert(escaped(text) + "\\u00"@ + digits =~= escaped(text) + ("\\u00"@ + digits));
    }
    reveal_strlit("\"");
    reveal_strlit("\\\"");
    reveal_strlit("\\\\");
    reveal_strlit("\\n");
    reveal_strlit("\\r");
    reveal_strlit("\\t");
    reveal_strlit("\\b");
    reveal_strlit("\\f");
    assert("\""@ =~= seq!['"']);
    assert("\\\""@ =~= seq!['\\', '"']);
    assert("\\\\"@ =~= seq!['\\', '\\']);
    assert("\\n"@ =~= seq!['\\', 'n']);
    assert("\\r"@ =~= seq!['\\', 'r']);
    assert("\\t"@ =~= seq!['\\', 't']);
    assert("\\b"@ =~= seq!['\\', 'b']);
    assert("\\f"@ =~= seq!['\\', 'f']);
    assert((text + seq![c]).drop_last() =~= text);
}

/// An object is written between braces and a list between brackets, with a comma
/// before each entry or item but the first; an entry is its quoted key, a colon and
/// the text of its value.
pub proof fn law_entries_are_written_one_by_one(
    entries: Seq<(String, Json)>,
    entry: (String, Json),
    items: Seq<Json>,
    item: Json,
)
    ensures
        object_text(Seq::empty()) == "{}"@,
        object_text(seq![entry]) == "{"@ + entry_text(entry) + "}"@,
        entries.len() > 0 ==> object_text(entries + seq![entry]) == object_text(entries).drop_last()
            + ","@ + entry_text(entry) + "}"@,
        entry_text(entry) == quoted(entry.0@) + ":"@ + entry.1.text@,
        array_text(Seq::empty()) == "[]"@,
        array_text(seq![item]) == "["@ + item.text@ + "]"@,
        items.len() > 0 ==> array_text(items + seq![item]) == array_text(items).drop_last() + ","@
            + item.text@ + "]"@,
{
    reveal_strlit("{}");
    reveal_strlit("{");
    reveal_strlit("}");
    reveal_strlit(",");
    reveal_strlit(":");
    reveal_strlit("[]");
    reveal_strlit("[");
    reveal_strlit("]");
    assert("{"@ =~= seq!['{']);
    assert("}"@ =~= seq!['}']);
    assert(","@ =~= seq![',']);
    assert(":"@ =~= seq![':']);
    assert("["@ =~= seq!['[']);
    assert("]"@ =~= seq![']']);
    let no_entries = Seq::<(String, Json)>::empty();
    let no_items = Seq::<Json>::empty();
    assert(Seq::new(no_entries.len(), |i: int| entry_text(no_entries[i])) =~= Seq::empty());
    assert(Seq::new(no_items.len(), |i: int| no_items[i].text@) =~= Seq::empty());
    assert(object_text(no_entries) =~= "{}"@);
    assert(array_text(no_items) =~= "[]"@);
    let one_entry = seq![entry];
    let one_item = seq![item];
    assert(Seq::new(one_entry.len(), |i: int| entry_text(one_entry[i])) =~= seq![
        entry_text(entry),
    ]);
    assert(Seq::new(one_item.len(), |i: int| one_item[i].text@) =~= seq![item.text@]);
    let more = entries + seq![entry];
    assert(Seq::new(more.len(), |i: int| entry_text(more[i])) =~= Seq::new(
        entries.len(),
        |i: int| entry_text(entries[i]),
    ) + seq![entry_text(entry)]);
    let longer = items + seq![item];
    assert(Seq::new(longer.len(), |i: int| longer[i].text@) =~= Seq::new(
        items.len(),
        |i: int| items[i].text@,
    ) + seq![item.text@]);
    law_parts_are_joined(
        Seq::new(entries.len(), |i: int| entry_text(entries[i])),
        seq![','],
        entry_text(entry),
    );
    law_parts_are_joined(
        Seq::new(items.len(), |i: int| items[i].text@),
        seq![','],
        item.text@,
    );
    if entries.len() > 0 {
        assert(object_text(more) =~= object_text(entries).drop_last() + ","@ + entry_text(entry)
            + "}"@);
    }
    if items.len() > 0 {
        assert(array_text(longer) =~= array_text(items).drop_last() + ","@ + item.text@ + "]"@);
    }
}

/// The text of a scalar is the word for it, and that of an integer its decimal
/// form.
pub proof fn law_scalars_are_written(text: Seq<char>, value: JsonValue)
    requires
        is_text_of(text, value),
    ensures
        value is Null ==> text == "null"@,
        value matches JsonValue::Bool(b) ==> text == if b {
            "true"@
        } else {
            "false"@
        },
        value matches JsonValue::Number(number) ==> (number.integer is Some ==> text
            == int_text(number.integer->0 as int)),
        value matches JsonValue::Text(held) ==> text == quoted(held@),
        value matches JsonValue::Array(items) ==> text == array_text(items@),
        value matches JsonValue::Object(entries) ==> text == object_text(entries@),
{
}

} // verus!

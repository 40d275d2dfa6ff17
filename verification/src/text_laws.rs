//! What holds of every number that is written out and of every text.

use vstd::prelude::*;

use crate::text::{
    begins_with, digit_char, hex_char, int_text, joined, left_aligned, nat_text, occurs_at, occurs_in,
    opt_view, right_aligned, text_before, two_digit_text, views,
};

verus! {

/// Whether a text is made of decimal digits, of which there is at least one.
pub open spec fn is_decimal(text: Seq<char>) -> bool {
    text.len() > 0 && forall|i: int| 0 <= i < text.len() ==> '0' <= #[trigger] text[i] <= '9'
}

/// The number that decimal digits stand for.
pub open spec fn decimal_value(text: Seq<char>) -> int
    decreases text.len(),
{
    if text.len() == 0 {
        0
    } else {
        10 * decimal_value(text.drop_last()) + (text.last() as int - '0' as int)
    }
}

/// A natural number is written in decimal digits that stand for it, and begins
/// with a zero only if it is zero.
pub proof fn law_naturals_are_written_in_decimal(n: nat)
    ensures
        is_decimal(nat_text(n)),
        decimal_value(nat_text(n)) == n,
        nat_text(n)[0] == '0' <==> n == 0,
        n < 10 <==> nat_text(n).len() == 1,
    decreases n,
{
    if n < 10 {
        assert(nat_text(n).drop_last() =~= Seq::<char>::empty());
        assert(decimal_value(nat_text(n).drop_last()) == 0);
        assert(nat_text(n).last() == digit_char(n as int));
        assert(digit_char(n as int) as int == 48 + n);
    } else {
        law_naturals_are_written_in_decimal(n / 10);
        let text = nat_text(n);
        assert(text.drop_last() =~= nat_text(n / 10));
        assert(digit_char((n % 10) as int) as int == 48 + n % 10);
        assert forall|i: int| 0 <= i < text.len() implies '0' <= #[trigger] text[i] <= '9' by {
            if i < nat_text(n / 10).len() {
                assert(text[i] == nat_text(n / 10)[i]);
            }
        }
        assert(text[0] == nat_text(n / 10)[0]);
    }
}

/// An integer is written as its magnitude, behind a minus sign if it is negative.
pub proof fn law_integers_are_written_in_decimal(n: int)
    ensures
        n >= 0 ==> int_text(n) == nat_text(n as nat),
        n < 0 ==> int_text(n)[0] == '-' && int_text(n).drop_first() == nat_text((-n) as nat),
{
    if n < 0 {
        assert(int_text(n).drop_first() =~= nat_text((-n) as nat));
    }
}

/// Two integers that are written alike are the same.
pub proof fn law_integers_are_told_apart(a: int, b: int)
    requires
        int_text(a) == int_text(b),
    ensures
        a == b,
{
    law_integers_are_written_in_decimal(a);
    law_integers_are_written_in_decimal(b);
    law_naturals_are_written_in_decimal(magnitude(a));
    law_naturals_are_written_in_decimal(magnitude(b));
    assert(int_text(a)[0] == int_text(b)[0]);
    if a >= 0 {
        assert('0' <= nat_text(a as nat)[0]);
    }
    if b >= 0 {
        assert('0' <= nat_text(b as nat)[0]);
    }
}

/// The size of an integer.
pub open spec fn magnitude(n: int) -> nat {
    if n < 0 {
        (-n) as nat
    } else {
        n as nat
    }
}

/// A number of two digits at least is written as itself, behind a zero if it has
/// one digit.
pub proof fn law_short_numbers_are_filled_up(n: nat)
    ensures
        is_decimal(two_digit_text(n)),
        decimal_value(two_digit_text(n)) == n,
        n < 100 ==> two_digit_text(n).len() == 2,
        n >= 10 ==> two_digit_text(n) == nat_text(n),
{
    law_naturals_are_written_in_decimal(n);
    if n < 10 {
        let text = two_digit_text(n);
        assert(text.drop_last() =~= seq!['0']);
        assert(seq!['0'].drop_last() =~= Seq::<char>::empty());
        assert(text =~= seq!['0', nat_text(n)[0]]);
        assert(nat_text(n).drop_last() =~= Seq::<char>::empty());
        reveal_with_fuel(decimal_value, 3);
    } else if n < 100 {
        law_naturals_are_written_in_decimal(n / 10);
        assert(nat_text(n).len() == nat_text(n / 10).len() + 1);
    }
}

/// A hexadecimal digit is the character at its place among the ten digits and the
/// six letters that follow them.
pub proof fn law_hexadecimal_digits(digit: int)
    requires
        0 <= digit < 16,
    ensures
        hex_char(digit) == "0123456789abcdef"@[digit],
{
    reveal_strlit("0123456789abcdef");
}

/// A text that is aligned fills its width with spaces, behind it or before it,
/// and is never cut.
pub proof fn law_aligned_texts_fill_their_width(text: Seq<char>, width: nat)
    ensures
        ({
            let left = left_aligned(text, width);
            let right = right_aligned(text, width);
            let length = if text.len() < width {
                width
            } else {
                text.len()
            };
            &&& left.len() == length && right.len() == length
            &&& left.take(text.len() as int) == text
            &&& right.skip(length - text.len()) == text
            &&& forall|i: int| text.len() <= i < length ==> #[trigger] left[i] == ' '
            &&& forall|i: int| 0 <= i < length - text.len() ==> #[trigger] right[i] == ' '
        }),
{
    let left = left_aligned(text, width);
    let right = right_aligned(text, width);
    assert(left.take(text.len() as int) =~= text);
    assert(right.skip(right.len() - text.len()) =~= text);
}

/// Joined parts stand one after another with the separator between them: nothing
/// comes before the first or after the last.
pub proof fn law_parts_are_joined(parts: Seq<Seq<char>>, separator: Seq<char>, part: Seq<char>)
    ensures
        joined(Seq::empty(), separator).len() == 0,
        joined(seq![part], separator) == part,
        parts.len() > 0 ==> joined(parts + seq![part], separator) == joined(parts, separator)
            + separator + part,
{
    let more = parts + seq![part];
    assert(more.drop_last() =~= parts);
    assert(more.last() == part);
}

/// A text holds another where it can be cut into what comes before it, the other
/// text and what comes after it.
pub proof fn law_parts_occur_where_they_stand(
    before: Seq<char>,
    needle: Seq<char>,
    after: Seq<char>,
    text: Seq<char>,
)
    ensures
        occurs_in(before + needle + after, needle),
        occurs_at(before + needle + after, needle, before.len() as int),
        occurs_in(text, needle) ==> exists|head: Seq<char>, tail: Seq<char>| #[trigger]
            (head + needle + tail) == text,
{
    let whole = before + needle + after;
    let at = before.len() as int;
    assert(whole.subrange(at, at + needle.len()) =~= needle);
    assert(occurs_at(whole, needle, at));
    if occurs_in(text, needle) {
        let k = choose|k: int| occurs_at(text, needle, k);
        let head = text.take(k);
        let tail = text.skip(k + needle.len());
        assert(head + needle + tail =~= text) by {
            assert forall|i: int| 0 <= i < text.len() implies (head + needle + tail)[i]
                == text[i] by {
                if k <= i < k + needle.len() {
                    assert(text.subrange(k, k + needle.len())[i - k] == needle[i - k]);
                }
            }
        }
    }
}

/// A text begins with another that is a prefix of it.
pub proof fn law_texts_begin_with_their_prefixes(text: Seq<char>, prefix: Seq<char>)
    ensures
        begins_with(text, prefix) <==> prefix.is_prefix_of(text),
{
    if prefix.is_prefix_of(text) {
        assert(text.subrange(0, prefix.len() as int) =~= prefix);
    }
}

/// A text comes before another when they are alike up to a place where it has the
/// lesser character or has ended.
pub proof fn law_texts_are_in_dictionary_order(a: Seq<char>, b: Seq<char>)
    ensures
        text_before(a, b) <==> exists|k: int| #[trigger] parts_at(a, b, k),
    decreases a.len(),
{
    if b.len() > 0 && a.len() > 0 && a[0] == b[0] {
        let rest_a = a.drop_first();
        let rest_b = b.drop_first();
        law_texts_are_in_dictionary_order(rest_a, rest_b);
        if text_before(rest_a, rest_b) {
            let k = choose|k: int| #[trigger] parts_at(rest_a, rest_b, k);
            assert(a.take(k + 1) =~= seq![a[0]] + rest_a.take(k));
            assert(b.take(k + 1) =~= seq![b[0]] + rest_b.take(k));
            assert(parts_at(a, b, k + 1));
        }
        if exists|k: int| #[trigger] parts_at(a, b, k) {
            let k = choose|k: int| #[trigger] parts_at(a, b, k);
            assert(k > 0);
            assert(rest_a.take(k - 1) =~= a.take(k).drop_first());
            assert(rest_b.take(k - 1) =~= b.take(k).drop_first());
            assert(parts_at(rest_a, rest_b, k - 1));
        }
    } else {
        if text_before(a, b) {
            assert(a.take(0) =~= b.take(0));
            assert(parts_at(a, b, 0));
        }
        if exists|k: int| #[trigger] parts_at(a, b, k) {
            let k = choose|k: int| #[trigger] parts_at(a, b, k);
            if k > 0 {
                assert(a.take(k)[0] == b.take(k)[0]);
            }
        }
    }
}

/// Whether two texts are alike up to position `k`, where the first has the lesser
/// character or has ended.
pub open spec fn parts_at(a: Seq<char>, b: Seq<char>, k: int) -> bool {
    &&& 0 <= k <= a.len()
    &&& k < b.len()
    &&& a.take(k) == b.take(k)
    &&& k < a.len() ==> (a[k] as int) < (b[k] as int)
}

/// The views of strings are their texts, one for one.
pub proof fn law_views_are_texts(strings: Seq<String>, text: String)
    ensures
        views(strings).len() == strings.len(),
        forall|i: int| 0 <= i < strings.len() ==> #[trigger] views(strings)[i] == strings[i]@,
        opt_view(Some(text)) == Some(text@),
        opt_view(None) is None,
{
}

} // verus!

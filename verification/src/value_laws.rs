//! What holds of every point in time, identifier, colour and error code.

use vstd::arithmetic::power::pow;
use vstd::prelude::*;

use crate::db::{DatabaseError, SqlxError};
use crate::paint::{
    color_code, color_name, is_painted, restyled, style_end, style_start, Color, Style,
};
use crate::retry::{
    all_digits, digits_value, is_lock_error, law_delays, parsed_i32, retry_delay,
};
use crate::text::{int_text, nat_text};
use crate::text_laws::{
    decimal_value, is_decimal, law_integers_are_written_in_decimal,
    law_naturals_are_written_in_decimal, magnitude,
};
use crate::time::{millis_between, nanos_between, valid_instant, whole_millis, Timestamp};
use crate::uuid::{hyphens_before, uuid_text, Uuid};

verus! {

/// The whole milliseconds of a number of nanoseconds are those that fit into it,
/// whichever way it points.
pub proof fn law_milliseconds_are_whole(nanos: int)
    ensures
        nanos >= 0 ==> 1_000_000 * whole_millis(nanos) <= nanos < 1_000_000 * whole_millis(nanos)
            + 1_000_000,
        whole_millis(-nanos) == -whole_millis(nanos),
{
}

/// Outside of leap seconds, the time between two points is their difference to
/// the nanosecond, in whole milliseconds; it is negative when they are swapped.
pub proof fn law_spans_are_differences(start: Timestamp, end: Timestamp)
    requires
        0 <= start.nanos() < 1_000_000_000,
        0 <= end.nanos() < 1_000_000_000,
    ensures
        nanos_between(start, end) == 1_000_000_000 * (end.secs() - start.secs()) + end.nanos()
            - start.nanos(),
        millis_between(start, end) == whole_millis(nanos_between(start, end)),
        millis_between(end, start) == -millis_between(start, end),
        !end.before(start) ==> millis_between(start, end) >= 0,
{
    law_milliseconds_are_whole(nanos_between(start, end));
    law_milliseconds_are_whole(nanos_between(end, start));
}

/// A leap second counts once it has passed: a second more from within one to a
/// later time of day, and a second less the other way round.
pub proof fn law_leap_seconds_count(start: Timestamp, end: Timestamp)
    ensures
        ({
            let difference = 1_000_000_000 * (end.secs() - start.secs()) + end.nanos()
                - start.nanos();
            let from = start.secs() % 86_400;
            let to = end.secs() % 86_400;
            &&& start.nanos() >= 1_000_000_000 && from < to ==> nanos_between(start, end)
                == difference + 1_000_000_000
            &&& end.nanos() >= 1_000_000_000 && to < from ==> nanos_between(start, end)
                == difference - 1_000_000_000
            &&& from == to ==> nanos_between(start, end) == difference
        }),
{
}

/// Of two points in time that differ, one comes before the other: the one with
/// fewer seconds or, with as many, fewer nanoseconds.
pub proof fn law_points_in_time_are_ordered(a: Timestamp, b: Timestamp)
    ensures
        a.secs() < b.secs() ==> a.before(b) && !b.before(a),
        a.secs() == b.secs() ==> (a.before(b) <==> a.nanos() < b.nanos()),
        a != b ==> a.before(b) || b.before(a),
{
    if a.secs() == b.secs() && a.nanos() == b.nanos() {
        Timestamp::lemma_parts(a, b);
    }
}

/// A point in time lies within the years that can be told, and within a second
/// unless that is the last of a minute, which a leap second may follow.
pub proof fn law_points_in_time_are_told(secs: int, nanos: int)
    ensures
        0 <= nanos < 1_000_000_000 ==> (valid_instant(secs, nanos) <==> -8_334_601_228_800 <= secs
            <= 8_210_266_876_799),
        valid_instant(secs, nanos) ==> 0 <= nanos < 2_000_000_000,
        1_000_000_000 <= nanos < 2_000_000_000 ==> (valid_instant(secs, nanos) <==> valid_instant(
            secs,
            0,
        ) && secs % 60 == 59),
{
}

/// The text of an identifier is 36 characters long, with hyphens at four places
/// and lower-case hexadecimal digits at the others.
pub proof fn law_identifiers_are_hyphenated(id: Uuid, at: int)
    requires
        0 <= at < 36,
    ensures
        uuid_text(id).len() == 36,
        uuid_text(id)[at] == '-' <==> at == 8 || at == 13 || at == 18 || at == 23,
        uuid_text(id)[at] == '-' || '0' <= uuid_text(id)[at] <= '9' || 'a' <= uuid_text(id)[at]
            <= 'f',
{
    let digit = (id.value as int / pow(
        16,
        (31 - (at - hyphens_before(at))) as nat,
    )) % 16;
    assert(0 <= digit < 16);
}

/// Decimal digits mean the same in an error code as anywhere.
proof fn lemma_same_value(text: Seq<char>)
    requires
        all_digits(text),
    ensures
        digits_value(text) == decimal_value(text),
    decreases text.len(),
{
    if text.len() > 0 {
        assert('0' <= text[text.len() - 1] <= '9');
        lemma_same_value(text.drop_last());
    }
}

/// A 32-bit integer is read back from its decimal form, and from that form behind
/// a plus sign if it is not negative.
pub proof fn law_integers_are_read_back(n: int)
    ensures
        i32::MIN <= n <= i32::MAX ==> parsed_i32(int_text(n)) == Some(n),
        !(i32::MIN <= n <= i32::MAX) ==> parsed_i32(int_text(n)) is None,
        0 <= n <= i32::MAX ==> parsed_i32(seq!['+'] + int_text(n)) == Some(n),
{
    let digits = nat_text(magnitude(n));
    law_integers_are_written_in_decimal(n);
    law_naturals_are_written_in_decimal(magnitude(n));
    assert('0' <= digits[0] <= '9');
    lemma_same_value(digits);
    if n < 0 {
        assert(int_text(n).skip(1) =~= digits);
    } else {
        assert((seq!['+'] + int_text(n)).skip(1) =~= digits);
    }
}

/// Digits are read as the number that they stand for, with or without a sign and
/// whatever they begin with, if it fits 32 bits.
pub proof fn law_digits_are_read(digits: Seq<char>)
    requires
        is_decimal(digits),
    ensures
        ({
            let n = decimal_value(digits);
            &&& 0 <= n <= 0x7fff_ffff ==> parsed_i32(digits) == Some(n)
            &&& 0 <= n <= 0x7fff_ffff ==> parsed_i32(seq!['+'] + digits) == Some(n)
            &&& 0 <= n <= 0x8000_0000 ==> parsed_i32(seq!['-'] + digits) == Some(-n)
            &&& n > 0x7fff_ffff ==> parsed_i32(digits) is None && parsed_i32(
                seq!['+'] + digits,
            ) is None
            &&& n > 0x8000_0000 ==> parsed_i32(seq!['-'] + digits) is None
        }),
{
    assert('0' <= digits[0] <= '9');
    lemma_same_value(digits);
    assert((seq!['+'] + digits).skip(1) =~= digits);
    assert((seq!['-'] + digits).skip(1) =~= digits);
}

/// What is read as an integer is digits, with or without a sign.
pub proof fn law_only_integers_are_read(text: Seq<char>)
    requires
        parsed_i32(text) is Some,
    ensures
        text.len() > 0,
        is_decimal(text) || ((text[0] == '-' || text[0] == '+') && is_decimal(text.skip(1))),
        i32::MIN <= parsed_i32(text)->0 <= i32::MAX,
{
}

/// An error is worth a retry exactly when the database refused the operation with
/// a code whose lowest eight bits say busy or locked.
pub proof fn law_contention_is_worth_a_retry(error: DatabaseError, n: int)
    requires
        error matches DatabaseError::Sqlx(SqlxError::Database { code, .. }) && code is Some
            && parsed_i32(code->0@) == Some(n),
    ensures
        is_lock_error(error) <==> exists|k: int| n == #[trigger] (256 * k) + 5 || n == 256 * k + 6,
{
    let k = n / 256;
    assert(n == 256 * k + n % 256);
    if exists|k: int| n == #[trigger] (256 * k) + 5 || n == 256 * k + 6 {
        let k = choose|k: int| n == #[trigger] (256 * k) + 5 || n == 256 * k + 6;
        assert(n % 256 == 5 || n % 256 == 6);
    }
    if is_lock_error(error) {
        assert(n == (256 * k) + 5 || n == 256 * k + 6);
    }
}

/// No other error is worth a retry: none that the database did not raise, none
/// without a code, and none whose code is not an integer.
pub proof fn law_other_errors_fail_fast(error: DatabaseError)
    requires
        match error {
            DatabaseError::Sqlx(SqlxError::Database { code, .. }) => code is None || parsed_i32(
                code->0@,
            ) is None,
            _ => true,
        },
    ensures
        !is_lock_error(error),
{
}

/// An operation that hits contention is attempted five times: after half a second,
/// then after five seconds each. After that, and on any other error, it is given
/// up.
pub proof fn law_operations_are_attempted_five_times(failures: nat, error: DatabaseError)
    ensures
        !is_lock_error(error) ==> retry_delay(failures, error) is None,
        is_lock_error(error) && failures == 0 ==> retry_delay(failures, error) == Some(500int),
        is_lock_error(error) && 1 <= failures <= 3 ==> retry_delay(failures, error) == Some(
            5_000int,
        ),
        failures >= 4 ==> retry_delay(failures, error) is None,
{
    law_delays(failures);
}

/// The digit of a colour among its eight.
pub open spec fn hue(color: Color) -> char {
    match color {
        Color::Black | Color::BrightBlack => '0',
        Color::Red | Color::BrightRed => '1',
        Color::Green | Color::BrightGreen => '2',
        Color::Yellow | Color::BrightYellow => '3',
        Color::Blue | Color::BrightBlue => '4',
        Color::Magenta | Color::BrightMagenta => '5',
        Color::Cyan | Color::BrightCyan => '6',
        Color::White | Color::BrightWhite => '7',
    }
}

/// Whether a colour is a bright one.
pub open spec fn is_bright(color: Color) -> bool {
    match color {
        Color::Black
        | Color::Red
        | Color::Green
        | Color::Yellow
        | Color::Blue
        | Color::Magenta
        | Color::Cyan
        | Color::White => false,
        _ => true,
    }
}

/// A colour is selected by the digit of its hue behind a three or, for a bright
/// one, a nine.
pub proof fn law_colors_are_selected(color: Color)
    ensures
        color_code(color).len() == 2,
        color_code(color)[0] == if is_bright(color) {
            '9'
        } else {
            '3'
        },
        color_code(color)[1] == hue(color),
{
}

/// A style is turned on by an escape sequence that says bold, dimmed or the colour,
/// and turned off by one that resets all.
pub proof fn law_styles_are_escape_sequences(color: Color)
    ensures
        style_start(Style::Bold) == "\x1b[1m"@,
        style_start(Style::Dimmed) == "\x1b[2m"@,
        style_start(Style::Colored(color)) == "\x1b["@ + color_code(color) + "m"@,
        style_start(Style::BoldColored(color)) == "\x1b[1;"@ + color_code(color) + "m"@,
        style_end() == "\x1b[0m"@,
{
    reveal_strlit("\x1b[1m");
    reveal_strlit("\x1b[2m");
    reveal_strlit("\x1b[");
    reveal_strlit("m");
    reveal_strlit("\x1b[1;");
    reveal_strlit("\x1b[0m");
    assert(style_start(Style::Bold) =~= "\x1b[1m"@);
    assert(style_start(Style::Dimmed) =~= "\x1b[2m"@);
    assert(style_start(Style::Colored(color)) =~= "\x1b["@ + color_code(color) + "m"@);
    assert(style_start(Style::BoldColored(color)) =~= "\x1b[1;"@ + color_code(color) + "m"@);
    assert(style_end() =~= "\x1b[0m"@);
}

/// A painted text that is not the text itself ends by resetting all styles, and
/// what it holds besides is the style and the text.
pub proof fn law_painted_texts_are_reset(text: Seq<char>, style: Style, painted: Seq<char>)
    requires
        is_painted(text, style, painted),
        painted != text,
    ensures
        painted.len() >= 4,
        painted.skip(painted.len() - 4) == style_end(),
        ({
            let body = painted.take(painted.len() - 4);
            let start = style_start(style);
            ||| body == text
            ||| body == start + text
            ||| body == restyled(text, start)
            ||| body == start + restyled(text, start)
        }),
{
    let body = painted.take(painted.len() - 4);
    let start = style_start(style);
    assert(painted.skip(painted.len() - 4) =~= style_end());
    if painted == text + style_end() {
        assert(body =~= text);
    } else if painted == start + text + style_end() {
        assert(body =~= start + text);
    } else if painted == restyled(text, start) + style_end() {
        assert(body =~= restyled(text, start));
    } else {
        assert(body =~= start + restyled(text, start));
    }
}

/// A text that turns no style off is painted as it is.
pub proof fn law_plain_texts_are_not_restyled(text: Seq<char>, start: Seq<char>)
    requires
        !text.contains('\u{1b}'),
    ensures
        restyled(text, start) == text,
    decreases text.len(),
{
    if text.len() > 0 {
        let rest = text.skip(1);
        assert(text[0] != '\u{1b}');
        if text.len() >= 4 && text.take(4) == style_end() {
            assert(text.take(4)[0] == '\u{1b}');
        }
        assert forall|i: int| 0 <= i < rest.len() implies #[trigger] rest[i] != '\u{1b}' by {
            assert(rest[i] == text[i + 1]);
        }
        law_plain_texts_are_not_restyled(rest, start);
        assert(seq![text[0]] + rest =~= text);
    }
}

/// The name of a bright colour says so in front of the name of its hue.
pub proof fn law_colors_are_named(color: Color)
    ensures
        hue(color) == '0' ==> color_name(color) == brightness(color) + "black"@,
        hue(color) == '1' ==> color_name(color) == brightness(color) + "red"@,
        hue(color) == '2' ==> color_name(color) == brightness(color) + "green"@,
        hue(color) == '3' ==> color_name(color) == brightness(color) + "yellow"@,
        hue(color) == '4' ==> color_name(color) == brightness(color) + "blue"@,
        hue(color) == '5' ==> color_name(color) == brightness(color) + "magenta"@,
        hue(color) == '6' ==> color_name(color) == brightness(color) + "cyan"@,
        hue(color) == '7' ==> color_name(color) == brightness(color) + "white"@,
{
    reveal_strlit("bright ");
    reveal_strlit("black");
    reveal_strlit("red");
    reveal_strlit("green");
    reveal_strlit("yellow");
    reveal_strlit("blue");
    reveal_strlit("magenta");
    reveal_strlit("cyan");
    reveal_strlit("white");
    reveal_strlit("bright black");
    reveal_strlit("bright red");
    reveal_strlit("bright green");
    reveal_strlit("bright yellow");
    reveal_strlit("bright blue");
    reveal_strlit("bright magenta");
    reveal_strlit("bright cyan");
    reveal_strlit("bright white");
    assert("bright "@ + "black"@ =~= "bright black"@);
    assert("bright "@ + "red"@ =~= "bright red"@);
    assert("bright "@ + "green"@ =~= "bright green"@);
    assert("bright "@ + "yellow"@ =~= "bright yellow"@);
    assert("bright "@ + "blue"@ =~= "bright blue"@);
    assert("bright "@ + "magenta"@ =~= "bright magenta"@);
    assert("bright "@ + "cyan"@ =~= "bright cyan"@);
    assert("bright "@ + "white"@ =~= "bright white"@);
    assert(Seq::<char>::empty() + color_name(color) =~= color_name(color));
}

/// How the name of a colour begins.
pub open spec fn brightness(color: Color) -> Seq<char> {
    if is_bright(color) {
        "bright "@
    } else {
        Seq::empty()
    }
}

} // verus!

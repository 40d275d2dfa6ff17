//! Retries of database operations that hit lock contention.

use vstd::arithmetic::power::{lemma_pow_increases, pow};
use vstd::prelude::*;
use vstd::string::*;

use crate::db::{DatabaseError, SqlxError};
use crate::text::to_chars;

verus! {

/// The maximum number of attempts made at an operation before giving up and
/// returning the last transient error.
pub const MAX_LOCK_RETRIES: usize = 5;

/// The base of the delays between attempts, in milliseconds.
pub const LOCK_RETRY_BASE_MS: u64 = 500;

/// The longest delay between attempts, in milliseconds.
pub const LOCK_RETRY_MAX_MS: u64 = 5_000;

/// Whether every character is a decimal digit.
pub open spec fn all_digits(text: Seq<char>) -> bool {
    forall|i: int| 0 <= i < text.len() ==> '0' <= #[trigger] text[i] <= '9'
}

/// The value of decimal digits.
pub open spec fn digits_value(text: Seq<char>) -> nat
    decreases text.len(),
{
    if text.len() == 0 {
        0
    } else {
        digits_value(text.drop_last()) * 10 + (text.last() as nat - '0' as nat) as nat
    }
}

/// The 32-bit integer that a text spells: digits, with an optional sign.
pub open spec fn parsed_i32(text: Seq<char>) -> Option<int> {
    let signed = text.len() > 0 && (text[0] == '-' || text[0] == '+');
    let digits = if signed {
        text.skip(1)
    } else {
        text
    };
    let value = if signed && text[0] == '-' {
        -(digits_value(digits) as int)
    } else {
        digits_value(digits) as int
    };
    if digits.len() > 0 && all_digits(digits) && i32::MIN <= value <= i32::MAX {
        Some(value)
    } else {
        None
    }
}

/// The value of a decimal digit.
fn digit_value(c: char) -> (r: Option<i64>)
    ensures
        match r {
            Some(value) => '0' <= c <= '9' && value == c as int - '0' as int,
            None => !('0' <= c <= '9'),
        },
{
    match c {
        '0' => Some(0),
        '1' => Some(1),
        '2' => Some(2),
        '3' => Some(3),
        '4' => Some(4),
        '5' => Some(5),
        '6' => Some(6),
        '7' => Some(7),
        '8' => Some(8),
        '9' => Some(9),
        _ => None,
    }
}

/// More digits never make a number smaller.
proof fn lemma_digits_grow(text: Seq<char>, k: int)
    requires
        0 <= k <= text.len(),
    ensures
        digits_value(text.take(k)) <= digits_value(text),
    decreases text.len(),
{
    if k == text.len() {
        assert(text.take(k) =~= text);
    } else {
        lemma_digits_grow(text.drop_last(), k);
        assert(text.drop_last().take(k) =~= text.take(k));
    }
}

/// Reads a 32-bit integer.
pub fn parse_i32(text: &str) -> (r: Option<i32>)
    ensures
        match r {
            Some(value) => parsed_i32(text@) == Some(value as int),
            None => parsed_i32(text@) is None,
        },
{
    let chars = to_chars(text);
    let signed = chars.len() > 0 && (chars[0] == '-' || chars[0] == '+');
    let negative = chars.len() > 0 && chars[0] == '-';
    let start: usize = if signed {
        1
    } else {
        0
    };
    let ghost digits = text@.skip(start as int);
    proof {
        assert(text@.skip(0) =~= text@);
    }
    if start == chars.len() {
        return None;
    }
    let mut value: i64 = 0;
    let mut i: usize = start;
    proof {
        assert(digits.take(0) =~= Seq::<char>::empty());
    }
    while i < chars.len()
        invariant
            chars@ == text@,
            start <= i <= chars.len(),
            start == (if signed {
                1int
            } else {
                0int
            }),
            signed == (text@.len() > 0 && (text@[0] == '-' || text@[0] == '+')),
            negative == (text@.len() > 0 && text@[0] == '-'),
            digits == text@.skip(start as int),
            digits == (if signed {
                text@.skip(1)
            } else {
                text@
            }),
            value == digits_value(digits.take(i - start)),
            0 <= value <= 0x8000_0000,
            all_digits(digits.take(i - start)),
        decreases chars.len() - i,
    {
        let ghost done = digits.take(i - start);
        let ghost next = digits.take(i - start + 1);
        proof {
            assert(next.drop_last() =~= done);
            assert(next.last() == text@[i as int]);
            lemma_digits_grow(digits, i - start + 1);
        }
        match digit_value(chars[i]) {
            Some(digit) => {
                value = value * 10 + digit;
                proof {
                    assert forall|k: int| 0 <= k < next.len() implies '0' <= #[trigger] next[k]
                        <= '9' by {
                        if k < done.len() {
                            assert(next[k] == done[k]);
                        }
                    }
                }
            },
            None => {
                proof {
                    assert(digits[i - start] == text@[i as int]);
                    assert(!all_digits(digits));
                }
                return None;
            },
        }
        if value > 0x8000_0000 {
            return None;
        }
        i = i + 1;
    }
    proof {
        assert(digits.take(digits.len() as int) =~= digits);
    }
    if negative {
        let signed_value: i64 = -value;
        Some(signed_value as i32)
    } else if value <= i32::MAX as i64 {
        Some(value as i32)
    } else {
        None
    }
}

/// Whether an extended result code stands for contention: its primary code, in
/// the lowest eight bits, says busy or locked.
pub open spec fn is_lock_code(code: int) -> bool {
    code % 256 == 5 || code % 256 == 6
}

/// Whether an error is a transient lock error.
pub open spec fn is_lock_error(error: DatabaseError) -> bool {
    match error {
        DatabaseError::Sqlx(SqlxError::Database { code: Some(code), .. }) => match parsed_i32(
            code@,
        ) {
            Some(code) => is_lock_code(code),
            None => false,
        },
        _ => false,
    }
}

/// Returns `true` if `error` represents a transient busy/locked condition of
/// the database that is worth retrying, as opposed to a permanent error such as
/// a constraint violation or "not found".
///
/// The database reports the *extended* result code (e.g. `773` for a busy
/// timeout), so the primary code is recovered from its lowest eight bits rather
/// than comparing the raw value directly.
pub fn is_transient_lock_error(error: &DatabaseError) -> (r: bool)
    ensures
        r == is_lock_error(*error),
{
    match error {
        DatabaseError::Sqlx(SqlxError::Database { code: Some(code), .. }) => {
            match parse_i32(code.as_str()) {
                Some(code) => {
                    let primary: i64 = (code as i64 + 0x8000_0000) % 256;
                    primary == 5 || primary == 6
                },
                None => false,
            }
        },
        _ => false,
    }
}

/// The delay after the attempt with the given 0-based number: a power of the
/// base, up to a maximum.
pub open spec fn backoff_delay(base: int, max: int, attempt: nat) -> int {
    if pow(base, attempt + 1) < max {
        pow(base, attempt + 1)
    } else {
        max
    }
}

/// The first delays of an exponential backoff, in milliseconds.
///
/// This is `tokio_retry2::strategy::ExponentialBackoff` made by `from_millis`
/// with a `max_delay`, of which the first `count` delays are taken. It is
/// trusted to give a power of the base for each delay, one higher each time,
/// until the maximum is reached.
#[verifier::external_body]
fn backoff(base: u64, max: u64, count: usize) -> (r: Vec<u64>)
    ensures
        r@.len() == count,
        forall|i: int|
            0 <= i < count ==> #[trigger] r@[i] == backoff_delay(base as int, max as int, i as nat),
{
    tokio_retry2::strategy::ExponentialBackoff::from_millis(base)
        .max_delay(std::time::Duration::from_millis(max))
        .take(count)
        .map(|delay| delay.as_millis() as u64)
        .collect()
}

/// How long to wait before the next attempt at an operation that had failed
/// `failures` times before it failed with `error`; `None` to give up.
pub open spec fn retry_delay(failures: nat, error: DatabaseError) -> Option<int> {
    if is_lock_error(error) && failures + 1 < MAX_LOCK_RETRIES {
        Some(backoff_delay(LOCK_RETRY_BASE_MS as int, LOCK_RETRY_MAX_MS as int, failures))
    } else {
        None
    }
}

/// The attempts made at an operation that may hit lock contention.
///
/// This is a second line of defense on top of the database's own busy timeout:
/// a single attempt may already block for that long, so retrying is for the
/// case where contention outlasts even that wait.
pub struct LockRetry {
    delays: Vec<u64>,
    failures: usize,
}

impl LockRetry {
    /// The number of attempts that failed, as far as it is counted.
    pub closed spec fn failures(self) -> nat {
        self.failures as nat
    }

    #[verifier::type_invariant]
    spec fn valid(self) -> bool {
        &&& self.delays@.len() == MAX_LOCK_RETRIES - 1
        &&& forall|i: int|
            0 <= i < self.delays@.len() ==> #[trigger] self.delays@[i] == backoff_delay(
                LOCK_RETRY_BASE_MS as int,
                LOCK_RETRY_MAX_MS as int,
                i as nat,
            )
    }

    /// No attempt has been made yet.
    pub fn new() -> (r: Self)
        ensures
            r.failures() == 0,
    {
        let delays = backoff(LOCK_RETRY_BASE_MS, LOCK_RETRY_MAX_MS, MAX_LOCK_RETRIES - 1);
        LockRetry { delays, failures: 0 }
    }

    /// Decides what to do about a failed attempt: retry after the returned
    /// number of milliseconds, or, for `None`, give up and return the error.
    ///
    /// Only a transient lock error is retried; any other error fails fast.
    pub fn after_failure(&mut self, error: &DatabaseError) -> (r: Option<u64>)
        ensures
            final(self).failures() == if old(self).failures() < MAX_LOCK_RETRIES {
                old(self).failures() + 1
            } else {
                old(self).failures()
            },
            r is Some <==> is_lock_error(*error) && old(self).failures() + 1 < MAX_LOCK_RETRIES,
            r matches Some(delay) ==> delay == backoff_delay(
                LOCK_RETRY_BASE_MS as int,
                LOCK_RETRY_MAX_MS as int,
                old(self).failures(),
            ),
            match r {
                Some(delay) => retry_delay(old(self).failures(), *error) == Some(delay as int),
                None => retry_delay(old(self).failures(), *error) is None,
            },
    {
        proof {
            use_type_invariant(&*self);
        }
        let at: usize = self.failures;
        if at < MAX_LOCK_RETRIES {
            self.failures = at + 1;
        }
        if is_transient_lock_error(error) && at < self.delays.len() {
            Some(self.delays[at])
        } else {
            None
        }
    }
}

/// The delays: half a second, then five seconds each.
pub proof fn law_delays(attempt: nat)
    ensures
        backoff_delay(LOCK_RETRY_BASE_MS as int, LOCK_RETRY_MAX_MS as int, attempt) == if attempt
            == 0 {
            500int
        } else {
            5_000int
        },
{
    reveal(pow);
    if attempt > 0 {
        lemma_pow_increases(500, 2, attempt + 1);
        assert(pow(500, 2) == 250_000) by {
            reveal_with_fuel(pow, 3);
        }
    } else {
        assert(pow(500, 1) == 500) by {
            reveal_with_fuel(pow, 2);
        }
    }
}

} // verus!

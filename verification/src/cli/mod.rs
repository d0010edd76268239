//! Decisions of the command-line tools: reading `--older-than` durations,
//! laying text out for the terminal, and checking command arguments.

use vstd::prelude::*;

use crate::datetime::{micros_in_range, MAX_MICROS, MIN_MICROS};
use crate::text::{chars_of, parse_decimal, parse_unsigned, push_all, trim, trim_bounds};

pub mod dump;
pub mod doctor;
pub mod edit;
pub mod forget;
pub mod init;

verus! {

/// The number of seconds that a duration text such as `7d` or `24h` stands
/// for: after trimming, a number that `u64` can hold followed by `d` (days)
/// or `h` (hours). `None` when the text has another form.
pub open spec fn duration_seconds(s: Seq<char>) -> Option<nat> {
    let t = trim(s);
    if t.len() > 0 && (t.last() == 'd' || t.last() == 'h') {
        match parse_unsigned(t.drop_last(), u64::MAX as nat) {
            Some(n) => Some(
                n * if t.last() == 'd' {
                    86400nat
                } else {
                    3600nat
                },
            ),
            None => None,
        }
    } else {
        None
    }
}

/// A `u64` number of seconds read as an `i64` (two's complement).
pub open spec fn seconds_as_i64(secs: nat) -> int {
    if secs <= i64::MAX {
        secs as int
    } else {
        secs - 0x1_0000_0000_0000_0000int
    }
}

/// The largest number of seconds that a time delta can hold.
pub open spec fn max_delta_seconds() -> int {
    i64::MAX / 1000
}

/// Whether the cutoff for the duration text `s`, taken back from `now`, can
/// be computed: the seconds fit a `u64`, read as an `i64` they fit a time
/// delta, and the cutoff is a representable time.
pub open spec fn duration_ago_in_range(s: Seq<char>, now: int) -> bool {
    match duration_seconds(s) {
        Some(secs) => {
            let x = seconds_as_i64(secs);
            &&& secs <= u64::MAX
            &&& -max_delta_seconds() <= x <= max_delta_seconds()
            &&& micros_in_range(now - x * 1_000_000)
        },
        None => true,
    }
}

/// Of two durations that fit an `i64` number of seconds, the longer one
/// gives the earlier (or the same) cutoff.
pub proof fn law_longer_duration_earlier_cutoff(a: Seq<char>, b: Seq<char>, now: int)
    requires
        duration_seconds(a) is Some,
        duration_seconds(b) is Some,
        duration_seconds(b)->Some_0 <= duration_seconds(a)->Some_0 <= i64::MAX,
    ensures
        now - seconds_as_i64(duration_seconds(a)->Some_0) * 1_000_000 <= now - seconds_as_i64(
            duration_seconds(b)->Some_0,
        ) * 1_000_000,
{
}

/// A number of days `Nd` stands for `N * 86400` seconds and a number of
/// hours `Nh` for `N * 3600` seconds; a number without a unit is refused.
pub proof fn law_duration_units(n: nat)
    requires
        n <= u64::MAX,
    ensures
        duration_seconds(crate::text::decimal(n).push('d')) == Some(n * 86400),
        duration_seconds(crate::text::decimal(n).push('h')) == Some(n * 3600),
        duration_seconds(crate::text::decimal(n)) is None,
{
    let d = crate::text::decimal(n);
    crate::text::lemma_decimal_digits(n);
    crate::text::lemma_parse_decimal_roundtrip(n, u64::MAX as nat);
    assert(crate::text::is_digit(d[0]));
    assert(crate::text::is_digit(d.last()));
    let sd = d.push('d');
    let sh = d.push('h');
    assert(sd[0] == d[0] && sh[0] == d[0]);
    assert(crate::text::trim_start(sd) == sd);
    assert(crate::text::trim_start(sh) == sh);
    assert(trim(sd) == sd);
    assert(trim(sh) == sh);
    assert(sd.drop_last() =~= d);
    assert(sh.drop_last() =~= d);
    assert(crate::text::trim_start(d) == d);
    assert(trim(d) == d);
}

/// The message for a duration text that has the wrong form.
pub open spec fn duration_error_text(s: Seq<char>) -> Seq<char> {
    "--older-than format must be NNd or NNh, got: "@ + trim(s)
}

/// Whether `duration_ago_in_range(s, now)` holds.
pub fn duration_ago_is_in_range(s: &str, now: i64) -> (b: bool)
    ensures
        b == duration_ago_in_range(s@, now as int),
{
    match duration_secs(s) {
        Err(Some(_)) => true,
        Err(None) => false,
        Ok(secs) => {
            let x: i128 = if secs <= i64::MAX as u64 {
                secs as i128
            } else {
                secs as i128 - 0x1_0000_0000_0000_0000i128
            };
            let bound: i128 = (i64::MAX / 1000) as i128;
            if x < -bound || x > bound {
                return false;
            }
            let cutoff: i128 = now as i128 - x * 1_000_000;
            MIN_MICROS as i128 <= cutoff && cutoff <= MAX_MICROS as i128
        },
    }
}

/// The seconds that a duration text stands for, or the message for a text
/// of the wrong form (`Err(None)` when the seconds overflow a `u64`).
fn duration_secs(s: &str) -> (r: Result<u64, Option<String>>)
    ensures
        match duration_seconds(s@) {
            Some(secs) => if secs <= u64::MAX {
                r == Ok::<u64, Option<String>>(secs as u64)
            } else {
                r == Err::<u64, Option<String>>(None)
            },
            None => r matches Err(Some(m)) && m@ == duration_error_text(s@),
        },
{
    let v = chars_of(s);
    let (i, j) = trim_bounds(&v);
    let t = &v.as_slice()[i..j];
    let ghost tt = trim(s@);
    proof {
        assert(t@ == tt);
    }
    if t.len() > 0 && (t[t.len() - 1] == 'd' || t[t.len() - 1] == 'h') {
        let unit: u64 = if t[t.len() - 1] == 'd' {
            86400
        } else {
            3600
        };
        let num = &t[0..t.len() - 1];
        proof {
            assert(num@ == tt.drop_last());
        }
        match parse_decimal(num, u64::MAX) {
            Some(n) => {
                if n > u64::MAX / unit {
                    proof {
                        assert(n * unit > u64::MAX) by (nonlinear_arith)
                            requires
                                n > u64::MAX / unit,
                                unit > 0,
                        ;
                    }
                    return Err(None);
                }
                proof {
                    assert(n * unit <= u64::MAX) by (nonlinear_arith)
                        requires
                            n <= u64::MAX / unit,
                            unit > 0,
                    ;
                }
                return Ok(n * unit);
            },
            None => {},
        }
    }
    let mut m = "--older-than format must be NNd or NNh, got: ".to_owned();
    let ts = crate::text::string_of(t);
    push_all(&mut m, ts.as_str());
    Err(Some(m))
}

/// The cutoff time, `now` minus the duration in the text `s` (`7d`, `24h`,
/// surrounding white space allowed), in microseconds since the epoch; or the
/// message that names a text of the wrong form. The durations that the
/// calendar library cannot take back from `now` are left out by `requires`.
pub fn parse_duration_ago(s: &str, now: i64) -> (r: Result<i64, String>)
    requires
        duration_ago_in_range(s@, now as int),
    ensures
        match duration_seconds(s@) {
            Some(secs) => r == Ok::<i64, String>(
                (now - seconds_as_i64(secs) * 1_000_000) as i64,
            ),
            None => r matches Err(m) && m@ == duration_error_text(s@),
        },
{
    match duration_secs(s) {
        Ok(secs) => {
            let x: i128 = if secs <= i64::MAX as u64 {
                secs as i128
            } else {
                secs as i128 - 0x1_0000_0000_0000_0000i128
            };
            let cutoff: i128 = now as i128 - x * 1_000_000;
            Ok(cutoff as i64)
        },
        Err(Some(m)) => Err(m),
        Err(None) => Err(String::new()),
    }
}

} // verus!

//! The figures and texts of the final report.

use vstd::prelude::*;
use vstd::string::StringExecFns;
use crate::algorithm::Algorithm;
use crate::stats::Stats;
use crate::text::{all_digits, decimal_value, is_digit};

verus! {

/// The share of the source that was saved, in whole percent: `saved` of
/// `saved + total` bytes, rounded towards zero and kept within 0..=255. It
/// is 0 where there is no source or where the share is negative.
pub open spec fn savings_percent(saved: int, total: int) -> int {
    let source = saved + total;
    if source == 0 || saved == 0 || (saved < 0) != (source < 0) {
        0
    } else {
        let share = if saved < 0 {
            (100 * -saved) / (-source)
        } else {
            (100 * saved) / source
        };
        if share > 255 {
            255
        } else {
            share
        }
    }
}

/// Returns the share of the source that was saved, in whole percent, for
/// `total` compressed bytes that are `saved` bytes less than their sources.
pub fn calc_savings(saved: i64, total: u64) -> (out: u8)
    ensures
        out == savings_percent(saved as int, total as int),
        0 <= saved ==> out <= 100,
{
    let source: i128 = saved as i128 + total as i128;
    if source == 0 || saved == 0 || (saved < 0) != (source < 0) {
        return 0;
    }
    let share: i128 = if saved < 0 {
        (100 * -(saved as i128)) / (-source)
    } else {
        (100 * (saved as i128)) / source
    };
    proof {
        if 0 <= saved {
            assert((100 * saved as int) / source as int <= 100) by (nonlinear_arith)
                requires
                    0 < saved <= source,
            ;
        }
    }
    if share > 255 {
        255
    } else {
        share as u8
    }
}

/// The decimal digit of `d`.
pub open spec fn digit_char(d: int) -> char {
    seq!['0', '1', '2', '3', '4', '5', '6', '7', '8', '9'][d]
}

/// The decimal text of `n`, without leading zeros.
pub open spec fn decimal_text(n: nat) -> Seq<char>
    decreases n,
{
    if n < 10 {
        seq![digit_char(n as int)]
    } else {
        decimal_text(n / 10).push(digit_char((n % 10) as int))
    }
}

/// The text of a duration of `nanos` nanoseconds: whole milliseconds
/// followed by `ms` below one second, whole seconds followed by `s` from there.
pub open spec fn duration_text(nanos: nat) -> Seq<char> {
    if nanos / 1_000_000 < 1_000 {
        decimal_text(nanos / 1_000_000) + seq!['m', 's']
    } else {
        decimal_text(nanos / 1_000_000_000) + seq!['s']
    }
}

/// The report line of `algorithm`: two spaces, the codec's name, a colon
/// and a space, the saved share in percent, and a percent sign.
pub open spec fn savings_text(algorithm: Algorithm, saved: int, total: int) -> Seq<char> {
    seq![' ', ' '] + algorithm.label() + seq![':', ' '] + decimal_text(
        savings_percent(saved, total) as nat,
    ) + seq!['%']
}

/// The decimal text of a number holds digits only and writes that number.
pub proof fn lemma_decimal_text_reads_back(n: nat)
    ensures
        decimal_text(n).len() > 0,
        all_digits(decimal_text(n)),
        decimal_value(decimal_text(n)) == n,
    decreases n,
{
    if n < 10 {
        assert(decimal_value(decimal_text(n).drop_last()) == 0);
    } else {
        lemma_decimal_text_reads_back(n / 10);
        assert(decimal_text(n).drop_last() =~= decimal_text(n / 10));
    }
}

/// Returns the text of the decimal digit `d`.
fn digit_text(d: u8) -> (out: &'static str)
    requires
        d < 10,
    ensures
        out@ == seq![digit_char(d as int)],
{
    proof {
        reveal_strlit("0");
        reveal_strlit("1");
        reveal_strlit("2");
        reveal_strlit("3");
        reveal_strlit("4");
        reveal_strlit("5");
        reveal_strlit("6");
        reveal_strlit("7");
        reveal_strlit("8");
        reveal_strlit("9");
    }
    let out = match d {
        0 => "0",
        1 => "1",
        2 => "2",
        3 => "3",
        4 => "4",
        5 => "5",
        6 => "6",
        7 => "7",
        8 => "8",
        _ => "9",
    };
    out
}

/// Returns the decimal text of `n`, without leading zeros.
pub fn to_decimal(n: u128) -> (out: String)
    ensures
        out@ == decimal_text(n as nat),
    decreases n,
{
    if n < 10 {
        digit_text(n as u8).to_owned()
    } else {
        let front = to_decimal(n / 10);
        let out = front.concat(digit_text((n % 10) as u8));
        out
    }
}

/// Returns the text of a duration of `nanos` nanoseconds.
pub fn format_duration(nanos: u128) -> (out: String)
    ensures
        out@ == duration_text(nanos as nat),
{
    proof {
        reveal_strlit("ms");
        reveal_strlit("s");
    }
    let millis = nanos / 1_000_000;
    let out = if millis < 1_000 {
        to_decimal(millis).concat("ms")
    } else {
        to_decimal(nanos / 1_000_000_000).concat("s")
    };
    out
}

/// Returns the report line of `alg` for the statistics `stats`.
pub fn alg_savings(alg: Algorithm, stats: &Stats) -> (out: String)
    ensures
        out@ == savings_text(
            alg,
            stats@.of(alg).saved,
            stats@.of(alg).bytes as int,
        ),
{
    proof {
        reveal_strlit("  ");
        reveal_strlit(": ");
        reveal_strlit("%");
    }
    let stat = stats.for_algorithm(alg);
    let share = calc_savings(stat.saved_bytes, stat.total_bytes);
    let out = "  ".to_owned().concat(alg.name()).concat(": ").concat(
        to_decimal(share as u128).as_str(),
    ).concat("%");
    out
}

} // verus!

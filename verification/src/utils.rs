//! Small shared helpers: crate identification, DPI conversion, ordered
//! ranges, filename formatting, timestamps and corner rings.

use crate::geometry::{Aabb, Vec2};
use chrono::{Datelike, Timelike};
use vstd::arithmetic::div_mod::{lemma_div_multiples_vanish, lemma_div_nonincreasing};
use vstd::prelude::*;
use vstd::string::StringExecFns;

verus! {

/// Returns this crate's version.
pub fn crate_version() -> (r: &'static str)
    ensures
        r@ =~= "0.1.0"@,
{
    proof {
        reveal_strlit("0.1.0");
    }
    "0.1.0"
}

/// What converting `v` from `c` dots per inch to `t` dots per inch yields:
/// the exact rational `v * t / c`, truncated toward zero.
pub open spec fn spec_convert_value_dpi(v: int, c: int, t: int) -> int
    recommends
        0 < c,
        0 < t,
{
    if v >= 0 {
        (v * t) / c
    } else {
        -(((-v) * t) / c)
    }
}

/// Converts a value from one sampling density (dots per inch) to another.
///
/// The result is `value * target_dpi / current_dpi`, truncated toward zero.
/// Zero or negative densities are outside this function's domain.
pub fn convert_value_dpi(value: i64, current_dpi: i64, target_dpi: i64) -> (r: i64)
    requires
        0 < current_dpi,
        0 < target_dpi,
        -i64::MAX <= value * target_dpi <= i64::MAX,
    ensures
        r == spec_convert_value_dpi(value as int, current_dpi as int, target_dpi as int),
{
    proof {
        if value < 0 {
            assert(value * target_dpi <= value) by (nonlinear_arith)
                requires
                    value < 0,
                    target_dpi >= 1,
            ;
        } else {
            assert(value <= value * target_dpi) by (nonlinear_arith)
                requires
                    value >= 0,
                    target_dpi >= 1,
            ;
        }
    }
    let neg = value < 0;
    let mag: u64 = if neg {
        (-value) as u64
    } else {
        value as u64
    };
    proof {
        if value < 0 {
            assert((-value) * target_dpi == -(value * target_dpi)) by (nonlinear_arith);
        }
    }
    let scaled: u64 = mag * (target_dpi as u64);
    proof {
        lemma_div_nonincreasing(scaled as int, current_dpi as int);
    }
    let quot: u64 = scaled / (current_dpi as u64);
    if neg {
        -(quot as i64)
    } else {
        quot as i64
    }
}

/// Converts a two-dimensional coordinate from one sampling density to
/// another, componentwise.
pub fn convert_coord_dpi(coord: Vec2, current_dpi: i64, target_dpi: i64) -> (r: Vec2)
    requires
        0 < current_dpi,
        0 < target_dpi,
        -i64::MAX <= coord.x * target_dpi <= i64::MAX,
        -i64::MAX <= coord.y * target_dpi <= i64::MAX,
    ensures
        r.x == spec_convert_value_dpi(coord.x as int, current_dpi as int, target_dpi as int),
        r.y == spec_convert_value_dpi(coord.y as int, current_dpi as int, target_dpi as int),
{
    Vec2 {
        x: convert_value_dpi(coord.x, current_dpi, target_dpi),
        y: convert_value_dpi(coord.y, current_dpi, target_dpi),
    }
}

/// Converting between equal densities is the identity, for every value and
/// every positive density.
pub proof fn lemma_convert_value_dpi_identity(v: int, d: int)
    requires
        0 < d,
    ensures
        spec_convert_value_dpi(v, d, d) == v,
{
    if v >= 0 {
        lemma_div_multiples_vanish(v, d);
        assert(v * d == d * v) by (nonlinear_arith);
    } else {
        lemma_div_multiples_vanish(-v, d);
        assert((-v) * d == d * (-v)) by (nonlinear_arith);
    }
}

/// Returns the half-open range over the two endpoints in ascending order:
/// its start is the smaller input and its end the larger, so the start never
/// exceeds the end. Equal inputs yield the empty range.
pub fn positive_range(first: i64, second: i64) -> (r: core::ops::Range<i64>)
    ensures
        r.start == if first < second {
            first
        } else {
            second
        },
        r.end == if first < second {
            second
        } else {
            first
        },
        r.start <= r.end,
{
    if first < second {
        first..second
    } else {
        second..first
    }
}

/// The decimal digit character for `d`.
pub open spec fn spec_digit_char(d: int) -> char
    recommends
        0 <= d < 10,
{
    if d == 0 {
        '0'
    } else if d == 1 {
        '1'
    } else if d == 2 {
        '2'
    } else if d == 3 {
        '3'
    } else if d == 4 {
        '4'
    } else if d == 5 {
        '5'
    } else if d == 6 {
        '6'
    } else if d == 7 {
        '7'
    } else if d == 8 {
        '8'
    } else {
        '9'
    }
}

/// The decimal digits of `n`, most significant first, without leading zeros
/// (`0` itself is the single digit `0`).
pub open spec fn spec_dec_digits(n: nat) -> Seq<char>
    decreases n,
{
    if n < 10 {
        seq![spec_digit_char(n as int)]
    } else {
        spec_dec_digits(n / 10) + seq![spec_digit_char((n % 10) as int)]
    }
}

/// The decimal digits of `n`, zero-padded on the left to at least two
/// places.
pub open spec fn spec_dec2_digits(n: nat) -> Seq<char> {
    if n < 10 {
        seq!['0'] + spec_dec_digits(n)
    } else {
        spec_dec_digits(n)
    }
}

/// The single-character string for decimal digit `d`.
fn digit_str(d: u64) -> (r: &'static str)
    requires
        d < 10,
    ensures
        r@ =~= seq![spec_digit_char(d as int)],
{
    proof {
        reveal_strlit("0");
        reveal_strlit("1");
        reveal_strlit("2");
        reveal_strlit("3");
        reveal_strlit("4");
        reveal_strlit("5");
        reveal_strlit("6");
        reveal_strlit("7");
        reveal_strlit("8");
        reveal_strlit("9");
    }
    if d == 0 {
        "0"
    } else if d == 1 {
        "1"
    } else if d == 2 {
        "2"
    } else if d == 3 {
        "3"
    } else if d == 4 {
        "4"
    } else if d == 5 {
        "5"
    } else if d == 6 {
        "6"
    } else if d == 7 {
        "7"
    } else if d == 8 {
        "8"
    } else {
        "9"
    }
}

/// The decimal representation of `n`.
pub fn dec_string(n: u64) -> (r: String)
    ensures
        r@ =~= spec_dec_digits(n as nat),
    decreases n,
{
    if n < 10 {
        digit_str(n).to_owned()
    } else {
        let mut s = dec_string(n / 10);
        s.append(digit_str(n % 10));
        s
    }
}

/// The decimal representation of `n`, zero-padded to at least two places.
pub fn dec2_string(n: u64) -> (r: String)
    ensures
        r@ =~= spec_dec2_digits(n as nat),
{
    proof {
        reveal_strlit("0");
    }
    if n < 10 {
        let mut s = "0".to_owned();
        s.append(digit_str(n));
        s
    } else {
        dec_string(n)
    }
}

/// The filename of one page of a document: the file stem followed by
/// `" - Page "` and the page number, zero-padded to at least two places.
pub open spec fn spec_page_filename(stem: Seq<char>, i: nat) -> Seq<char> {
    stem + " - Page "@ + spec_dec2_digits(i)
}

/// Generates a filename for a specific page of a document: the file stem
/// followed by `" - Page "` and the page number, zero-padded to at least two
/// places.
pub fn format_page_filename(file_stem_name: &str, i: usize) -> (r: String)
    ensures
        r@ =~= spec_page_filename(file_stem_name@, i as nat),
{
    proof {
        reveal_strlit(" - Page ");
    }
    let mut s = file_stem_name.to_owned();
    s.append(" - Page ");
    let num = dec2_string(i as u64);
    s.append(num.as_str());
    s
}

/// The decimal digits of `n`, zero-padded to at least four places.
pub open spec fn spec_dec4_digits(n: nat) -> Seq<char> {
    if n < 10 {
        seq!['0', '0', '0'] + spec_dec_digits(n)
    } else if n < 100 {
        seq!['0', '0'] + spec_dec_digits(n)
    } else if n < 1000 {
        seq!['0'] + spec_dec_digits(n)
    } else {
        spec_dec_digits(n)
    }
}

/// The year as written in a timestamp: zero-padded to at least four places,
/// with a leading minus sign for years before year zero.
pub open spec fn spec_year_digits(y: int) -> Seq<char> {
    if y < 0 {
        seq!['-'] + spec_dec4_digits((-y) as nat)
    } else {
        spec_dec4_digits(y as nat)
    }
}

/// A timestamp of the form `YYYY-MM-DD_HH:MM:SS`, each field zero-padded.
pub open spec fn spec_timestamp(y: int, mo: nat, d: nat, h: nat, mi: nat, s: nat) -> Seq<char> {
    spec_year_digits(y) + seq!['-'] + spec_dec2_digits(mo) + seq!['-'] + spec_dec2_digits(d)
        + seq!['_'] + spec_dec2_digits(h) + seq![':'] + spec_dec2_digits(mi) + seq![':']
        + spec_dec2_digits(s)
}

/// The decimal representation of `n`, zero-padded to at least four places.
fn dec4_string(n: u64) -> (r: String)
    ensures
        r@ =~= spec_dec4_digits(n as nat),
{
    proof {
        reveal_strlit("000");
        reveal_strlit("00");
        reveal_strlit("0");
    }
    let mut s = String::new();
    if n < 10 {
        s.append("000");
    } else if n < 100 {
        s.append("00");
    } else if n < 1000 {
        s.append("0");
    }
    let num = dec_string(n);
    s.append(num.as_str());
    s
}

/// Formats a date and time as `YYYY-MM-DD_HH:MM:SS`: every field zero-padded,
/// the year to four places and the rest to two, with a leading minus sign for
/// a negative year.
pub fn format_timestamp(year: i64, month: u64, day: u64, hour: u64, minute: u64, second: u64) -> (r:
    String)
    requires
        year > i64::MIN,
    ensures
        r@ =~= spec_timestamp(
            year as int,
            month as nat,
            day as nat,
            hour as nat,
            minute as nat,
            second as nat,
        ),
{
    proof {
        reveal_strlit("-");
        reveal_strlit("_");
        reveal_strlit(":");
    }
    let mut s = String::new();
    if year < 0 {
        s.append("-");
        let y = dec4_string((-year) as u64);
        s.append(y.as_str());
    } else {
        let y = dec4_string(year as u64);
        s.append(y.as_str());
    }
    s.append("-");
    let mo = dec2_string(month);
    s.append(mo.as_str());
    s.append("-");
    let d = dec2_string(day);
    s.append(d.as_str());
    s.append("_");
    let h = dec2_string(hour);
    s.append(h.as_str());
    s.append(":");
    let mi = dec2_string(minute);
    s.append(mi.as_str());
    s.append(":");
    let sec = dec2_string(second);
    s.append(sec.as_str());
    s
}

/// Relies on `chrono::Local::now` and chrono's `Datelike` and `Timelike`
/// accessors for the local wall-clock date and time. Chrono documents the
/// field ranges: month 1..=12, day 1..=31, hour below 24, minute and second
/// below 60; the year is an `i32` widened here.
#[verifier::external_body]
fn local_now_parts() -> (r: (i64, u64, u64, u64, u64, u64))
    ensures
        i32::MIN <= r.0 <= i32::MAX,
        1 <= r.1 <= 12,
        1 <= r.2 <= 31,
        r.3 < 24,
        r.4 < 60,
        r.5 < 60,
{
    let now = chrono::Local::now();
    (
        now.year() as i64,
        now.month() as u64,
        now.day() as u64,
        now.hour() as u64,
        now.minute() as u64,
        now.second() as u64,
    )
}

/// Returns the current local date and time formatted as
/// `YYYY-MM-DD_HH:MM:SS`.
///
/// What instant the clock reads is outside this function's control; whatever
/// it reads, the result is the timestamp of a date and time whose fields are
/// in calendar range.
pub fn now_formatted_string() -> (r: String)
    ensures
        exists|y: int, mo: nat, d: nat, h: nat, mi: nat, s: nat|
            {
                &&& 1 <= mo <= 12
                &&& 1 <= d <= 31
                &&& h < 24
                &&& mi < 60
                &&& s < 60
                &&& r@ =~= #[trigger] spec_timestamp(y, mo, d, h, mi, s)
            },
{
    let (year, month, day, hour, minute, second) = local_now_parts();
    let r = format_timestamp(year, month, day, hour, minute, second);
    proof {
        assert(r@ =~= spec_timestamp(
            year as int,
            month as nat,
            day as nat,
            hour as nat,
            minute as nat,
            second as nat,
        ));
    }
    r
}

/// The closed corner ring of a box: its four corners, starting at the
/// minimum corner and walking the box with the x-extreme corner second, with
/// the starting corner repeated at the end.
pub fn aabb_corner_ring(aabb: Aabb) -> (r: Vec<Vec2>)
    ensures
        r@.len() == 5,
        r@[0] == aabb.mins,
        r@[1] == (Vec2 { x: aabb.maxs.x, y: aabb.mins.y }),
        r@[2] == aabb.maxs,
        r@[3] == (Vec2 { x: aabb.mins.x, y: aabb.maxs.y }),
        r@[4] == aabb.mins,
{
    let mut ring: Vec<Vec2> = Vec::new();
    ring.push(aabb.mins);
    ring.push(Vec2 { x: aabb.maxs.x, y: aabb.mins.y });
    ring.push(aabb.maxs);
    ring.push(Vec2 { x: aabb.mins.x, y: aabb.maxs.y });
    ring.push(aabb.mins);
    ring
}

} // verus!

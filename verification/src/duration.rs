//! Human-readable durations ("10min", "1h 30m"), read and written with
//! the `humantime` crate.
use vstd::prelude::*;

use crate::text::{chars_of, digit_value, is_digit, is_white, is_whitespace, nat_text};

verus! {

/// What `humantime::parse_duration` gives for a text: the whole seconds
/// and the nanoseconds of the duration, or the text of its error.
pub uninterp spec fn humantime_parse(text: Seq<char>) -> Result<(u64, u32), Seq<char>>;

/// One item of a formatted duration: the value and the unit's name, with
/// an `s` for a plural where the name takes one; nothing for a zero.
pub open spec fn duration_item(value: nat, name: Seq<char>, plural: bool) -> Seq<char> {
    if value > 0 {
        nat_text(value) + name + if plural && value > 1 {
            "s"@
        } else {
            Seq::empty()
        }
    } else {
        Seq::empty()
    }
}

/// The non-empty items, separated by single spaces.
pub open spec fn join_items(items: Seq<Seq<char>>) -> Seq<char>
    decreases items.len(),
{
    if items.len() == 0 {
        Seq::empty()
    } else {
        let before = join_items(items.drop_last());
        let last = items.last();
        if last.len() == 0 {
            before
        } else if before.len() == 0 {
            last
        } else {
            before + " "@ + last
        }
    }
}

/// What `humantime::format_duration` displays for `secs` seconds and
/// `nanos` nanoseconds: `0s` for nothing, else the years (365.25 days),
/// months (30.44 days), days, hours, minutes, seconds, milliseconds,
/// microseconds and nanoseconds that are not zero, largest first.
pub open spec fn humantime_format(secs: u64, nanos: u32) -> Seq<char> {
    if secs == 0 && nanos == 0 {
        "0s"@
    } else {
        let years = secs / 31_557_600;
        let ydays = secs % 31_557_600;
        let months = ydays / 2_630_016;
        let mdays = ydays % 2_630_016;
        let days = mdays / 86400;
        let day_secs = mdays % 86400;
        join_items(
            seq![
                duration_item(years as nat, "year"@, true),
                duration_item(months as nat, "month"@, true),
                duration_item(days as nat, "day"@, true),
                duration_item((day_secs / 3600) as nat, "h"@, false),
                duration_item((day_secs % 3600 / 60) as nat, "m"@, false),
                duration_item((day_secs % 60) as nat, "s"@, false),
                duration_item((nanos / 1_000_000) as nat, "ms"@, false),
                duration_item((nanos / 1000 % 1000) as nat, "us"@, false),
                duration_item((nanos % 1000) as nat, "ns"@, false),
            ],
        )
    }
}

/// A parsed duration with its error text as characters.
pub open spec fn parsed_view(r: Result<(u64, u32), String>) -> Result<(u64, u32), Seq<char>> {
    match r {
        Ok(d) => Ok(d),
        Err(e) => Err(e@),
    }
}

/// Whether a character belongs to the digits of a number in a duration
/// text: a decimal digit, or whitespace, which `humantime` skips inside
/// a number.
pub open spec fn is_number_char(c: char) -> bool {
    is_digit(c) || is_white(c)
}

/// The end of the run of digits and whitespace that starts at `i`.
pub open spec fn run_end(s: Seq<char>, i: int) -> int
    decreases s.len() - i,
{
    if 0 <= i < s.len() && is_number_char(s[i]) {
        run_end(s, i + 1)
    } else {
        i
    }
}

/// The number that the digits of `s[i..j]` denote (whitespace skipped).
pub open spec fn run_value(s: Seq<char>, i: int, j: int) -> nat
    decreases j - i,
{
    if j <= i {
        0
    } else if is_digit(s[j - 1]) {
        run_value(s, i, j - 1) * 10 + digit_value(s[j - 1])
    } else {
        run_value(s, i, j - 1)
    }
}

/// The number of digits in `s[i..j]`.
pub open spec fn run_digits(s: Seq<char>, i: int, j: int) -> nat
    decreases j - i,
{
    if j <= i {
        0
    } else if is_digit(s[j - 1]) {
        run_digits(s, i, j - 1) + 1
    } else {
        run_digits(s, i, j - 1)
    }
}

/// Ten to the power `n`.
pub open spec fn ten_pow(n: nat) -> nat
    decreases n,
{
    if n == 0 {
        1
    } else {
        10 * ten_pow((n - 1) as nat)
    }
}

/// The character at `k`, or a space outside the text.
pub open spec fn char_at(s: Seq<char>, k: int) -> char {
    if 0 <= k < s.len() {
        s[k]
    } else {
        ' '
    }
}

/// The nanoseconds in one unit of the time unit whose name starts at `k`,
/// told apart by its first characters: `n` nanoseconds; `u` or `µ`
/// microseconds; `ms`, `msec` and `millis` milliseconds; `mo...` months;
/// another `m...` minutes; `s` seconds; `h` hours; `d` days; `w` weeks;
/// `M` months; `y` years. Anything else names no unit: 0.
pub open spec fn unit_nanos(s: Seq<char>, k: int) -> nat {
    let c = char_at(s, k);
    let c2 = char_at(s, k + 1);
    let c3 = char_at(s, k + 2);
    if !(0 <= k < s.len()) {
        0
    } else if c == 'n' {
        1
    } else if c == 'u' || c == '\u{b5}' {
        1000
    } else if c == 'm' {
        if c2 == 'o' {
            2_630_016_000_000_000
        } else if c2 == 's' || (c2 == 'i' && c3 == 'l') {
            1_000_000
        } else {
            60_000_000_000
        }
    } else if c == 's' {
        1_000_000_000
    } else if c == 'h' {
        3_600_000_000_000
    } else if c == 'd' {
        86_400_000_000_000
    } else if c == 'w' {
        604_800_000_000_000
    } else if c == 'M' {
        2_630_016_000_000_000
    } else if c == 'y' {
        31_557_600_000_000_000
    } else {
        0
    }
}

/// The nanoseconds of a whole number of units; a number that does not
/// fit in 64 bits counts for nothing (`humantime` stops there with an
/// error).
pub open spec fn whole_nanos(v: nat, unit: nat) -> nat {
    if v <= u64::MAX {
        v * unit
    } else {
        0
    }
}

/// The nanoseconds of the fraction `fv / 10^digits` of a unit, rounded
/// up; past 19 digits (more than `humantime` reads), a whole unit.
pub open spec fn fraction_nanos(fv: nat, digits: nat, unit: nat) -> nat {
    if digits <= 19 {
        ((fv * unit + ten_pow(digits) - 1) / (ten_pow(digits) as int)) as nat
    } else {
        unit
    }
}

/// Where the span that starts with the digit at `i` ends: after its
/// number, and after its fraction when a `.` follows.
pub open spec fn span_next(s: Seq<char>, i: int) -> int {
    let j = run_end(s, i);
    if j < s.len() && s[j] == '.' {
        run_end(s, j + 1)
    } else {
        j
    }
}

/// The nanoseconds of the span that starts with the digit at `i`: its
/// number, and its fraction, times the unit that follows them.
pub open spec fn span_nanos(s: Seq<char>, i: int) -> nat {
    let j = run_end(s, i);
    let v = run_value(s, i, j);
    if j < s.len() && s[j] == '.' {
        let k = run_end(s, j + 1);
        let u = unit_nanos(s, k);
        whole_nanos(v, u) + fraction_nanos(run_value(s, j + 1, k), run_digits(s, j + 1, k), u)
    } else {
        whole_nanos(v, unit_nanos(s, j))
    }
}

/// The nanoseconds of all the spans of `s` from `i` on.
pub open spec fn nanos_from(s: Seq<char>, i: int) -> nat
    decreases s.len() - i,
{
    if i < 0 || i >= s.len() {
        0
    } else if is_digit(s[i]) {
        proof {
            lemma_span_next_after(s, i);
        }
        span_nanos(s, i) + nanos_from(s, span_next(s, i))
    } else {
        nanos_from(s, i + 1)
    }
}

/// 2^64 seconds, in nanoseconds: the first length of time that a
/// `Duration` cannot hold.
pub const NANOS_LIMIT: u128 = 18_446_744_073_709_551_616_000_000_000;

/// Whether a duration text can be given to `humantime`: its spans add up
/// to less than 2^64 seconds.
pub open spec fn duration_fits(text: Seq<char>) -> bool {
    nanos_from(text, 0) < NANOS_LIMIT
}

/// What `humantime`'s error says of a number too large.
pub open spec fn overflow_text() -> Seq<char> {
    "number is too large or cannot be represented without a lack of precision (values below 1ns are not supported)"@
}

/// How a duration text is read: by `humantime` when its spans add up to
/// less than 2^64 seconds, else refused with `humantime`'s own message
/// for a number too large.
pub open spec fn duration_read(text: Seq<char>) -> Result<(u64, u32), Seq<char>> {
    if duration_fits(text) {
        humantime_parse(text)
    } else {
        Err(overflow_text())
    }
}

pub proof fn lemma_run_end_bounds(s: Seq<char>, i: int)
    requires
        0 <= i <= s.len(),
    ensures
        i <= run_end(s, i) <= s.len(),
        i < s.len() && is_number_char(s[i]) ==> run_end(s, i) > i,
    decreases s.len() - i,
{
    if i < s.len() && is_number_char(s[i]) {
        lemma_run_end_bounds(s, i + 1);
    }
}

pub proof fn lemma_span_next_after(s: Seq<char>, i: int)
    requires
        0 <= i < s.len(),
        is_digit(s[i]),
    ensures
        i < span_next(s, i) <= s.len(),
{
    lemma_run_end_bounds(s, i);
    let j = run_end(s, i);
    if j < s.len() && s[j] == '.' {
        lemma_run_end_bounds(s, j + 1);
    }
}

proof fn lemma_run_value_monotone(s: Seq<char>, i: int, k: int, j: int)
    requires
        i <= k <= j,
    ensures
        run_value(s, i, k) <= run_value(s, i, j),
    decreases j - k,
{
    if k < j {
        lemma_run_value_monotone(s, i, k, j - 1);
    }
}

proof fn lemma_run_digits_monotone(s: Seq<char>, i: int, k: int, j: int)
    requires
        i <= k <= j,
    ensures
        run_digits(s, i, k) <= run_digits(s, i, j),
    decreases j - k,
{
    if k < j {
        lemma_run_digits_monotone(s, i, k, j - 1);
    }
}

proof fn lemma_ten_pow_bound(n: nat)
    requires
        n <= 19,
    ensures
        1 <= ten_pow(n) <= 10_000_000_000_000_000_000,
        n <= 18 ==> ten_pow(n) <= 1_000_000_000_000_000_000,
    decreases n,
{
    reveal_with_fuel(ten_pow, 20);
    if n > 0 {
        lemma_ten_pow_bound((n - 1) as nat);
    }
}

/// Calls `humantime::parse_duration` on `text` and splits the duration
/// into whole seconds and nanoseconds (fewer than a billion, as
/// `Duration::subsec_nanos` documents); an error is given as the text
/// that its `Display` writes.
///
/// The parser panics (in `Duration::new`) only when the time it has added
/// up reaches 2^64 seconds. Each span it adds is a number of the text,
/// with its fraction, times a unit: a number is a digit followed by
/// digits and whitespace, and its unit is the name after it (after the
/// fraction when a `.` follows). A span whose number does not fit in 64
/// bits, whose fraction has more than 19 digits or whose unit is unknown
/// stops the parser with an error before anything is added. Every known
/// unit name is told apart by its first characters as `unit_nanos` does,
/// so the time added is never more than `nanos_from(text, 0)`; under
/// 2^64 seconds it cannot panic.
#[verifier::external_body]
pub(crate) fn parse_duration(text: &str) -> (r: Result<(u64, u32), String>)
    requires
        duration_fits(text@),
    ensures
        parsed_view(r) == humantime_parse(text@),
        r is Ok ==> r->Ok_0.1 < 1_000_000_000,
{
    match humantime::parse_duration(text) {
        Ok(d) => Ok((d.as_secs(), d.subsec_nanos())),
        Err(e) => Err(format!("{}", e)),
    }
}

fn run_end_exec(cs: &[char], i: usize) -> (j: usize)
    requires
        i <= cs@.len(),
    ensures
        j == run_end(cs@, i as int),
        i <= j <= cs@.len(),
{
    let mut j = i;
    while j < cs.len() && (('0' <= cs[j] && cs[j] <= '9') || is_whitespace(cs[j]))
        invariant
            i <= j <= cs@.len(),
            run_end(cs@, i as int) == run_end(cs@, j as int),
        decreases cs@.len() - j,
    {
        j = j + 1;
    }
    j
}

fn run_value_exec(cs: &[char], i: usize, j: usize) -> (r: Option<u64>)
    requires
        i <= j <= cs@.len(),
    ensures
        match r {
            Some(v) => v == run_value(cs@, i as int, j as int),
            None => run_value(cs@, i as int, j as int) > u64::MAX,
        },
{
    let mut v: u64 = 0;
    let mut k: usize = i;
    while k < j
        invariant
            i <= k <= j <= cs@.len(),
            v == run_value(cs@, i as int, k as int),
        decreases j - k,
    {
        let c = cs[k];
        if '0' <= c && c <= '9' {
            let d: u64 = ((c as u32) - 48) as u64;
            assert(d == digit_value(c));
            if v > 1844674407370955161u64 || (v == 1844674407370955161u64 && d > 5) {
                proof {
                    assert(v * 10 + d > u64::MAX) by (nonlinear_arith)
                        requires
                            v > 1844674407370955161u64 || (v == 1844674407370955161u64 && d > 5),
                    ;
                    lemma_run_value_monotone(cs@, i as int, k + 1, j as int);
                }
                return None;
            }
            v = v * 10 + d;
        }
        k = k + 1;
    }
    Some(v)
}

fn fraction_exec(cs: &[char], i: usize, j: usize) -> (r: Option<(u128, u128)>)
    requires
        i <= j <= cs@.len(),
    ensures
        match r {
            Some((fv, den)) => run_digits(cs@, i as int, j as int) <= 19 && fv == run_value(
                cs@,
                i as int,
                j as int,
            ) && den == ten_pow(run_digits(cs@, i as int, j as int)) && fv < den && den
                <= 10_000_000_000_000_000_000,
            None => run_digits(cs@, i as int, j as int) > 19,
        },
{
    let mut fv: u128 = 0;
    let mut den: u128 = 1;
    let mut nd: u64 = 0;
    let mut k: usize = i;
    while k < j
        invariant
            i <= k <= j <= cs@.len(),
            nd <= 19,
            nd == run_digits(cs@, i as int, k as int),
            fv == run_value(cs@, i as int, k as int),
            den == ten_pow(nd as nat),
            fv < den,
            den <= 10_000_000_000_000_000_000,
        decreases j - k,
    {
        let c = cs[k];
        if '0' <= c && c <= '9' {
            if nd == 19 {
                proof {
                    lemma_run_digits_monotone(cs@, i as int, k + 1, j as int);
                }
                return None;
            }
            let d: u128 = ((c as u32) - 48) as u128;
            assert(d == digit_value(c));
            proof {
                lemma_ten_pow_bound(nd as nat);
                lemma_ten_pow_bound((nd + 1) as nat);
                assert(fv * 10 + d < den * 10) by (nonlinear_arith)
                    requires
                        fv < den,
                        d <= 9,
                ;
            }
            fv = fv * 10 + d;
            den = den * 10;
            nd = nd + 1;
        }
        k = k + 1;
    }
    Some((fv, den))
}

fn unit_nanos_exec(cs: &[char], k: usize) -> (u: u64)
    ensures
        u == unit_nanos(cs@, k as int),
        u <= 31_557_600_000_000_000,
{
    if k >= cs.len() {
        return 0;
    }
    let c = cs[k];
    let c2 = if k + 1 < cs.len() {
        cs[k + 1]
    } else {
        ' '
    };
    let c3 = if k + 1 < cs.len() && k + 2 < cs.len() {
        cs[k + 2]
    } else {
        ' '
    };
    if c == 'n' {
        1
    } else if c == 'u' || c == '\u{b5}' {
        1000
    } else if c == 'm' {
        if c2 == 'o' {
            2_630_016_000_000_000
        } else if c2 == 's' || (c2 == 'i' && c3 == 'l') {
            1_000_000
        } else {
            60_000_000_000
        }
    } else if c == 's' {
        1_000_000_000
    } else if c == 'h' {
        3_600_000_000_000
    } else if c == 'd' {
        86_400_000_000_000
    } else if c == 'w' {
        604_800_000_000_000
    } else if c == 'M' {
        2_630_016_000_000_000
    } else if c == 'y' {
        31_557_600_000_000_000
    } else {
        0
    }
}

fn whole_exec(v: Option<u64>, u: u64) -> (w: u128)
    requires
        u <= 31_557_600_000_000_000,
    ensures
        w == (match v {
            Some(x) => x * u,
            None => 0,
        }),
        w < 590_000_000_000_000_000_000_000_000_000_000_000,
{
    match v {
        Some(v) => {
            assert(v as u128 * u as u128 <= 18446744073709551615u128 * 31_557_600_000_000_000u128)
                by (nonlinear_arith)
                requires
                    v <= 18446744073709551615u64,
                    u <= 31_557_600_000_000_000u64,
            ;
            v as u128 * u as u128
        },
        None => 0,
    }
}

/// The nanoseconds of the span that starts with the digit at `i`, and
/// where it ends.
fn span_exec(cs: &[char], i: usize) -> (r: (u128, usize))
    requires
        i < cs@.len(),
        is_digit(cs@[i as int]),
    ensures
        r.0 == span_nanos(cs@, i as int),
        r.1 == span_next(cs@, i as int),
        r.0 < 1_000_000_000_000_000_000_000_000_000_000_000_000,
{
    let j = run_end_exec(cs, i);
    let v = run_value_exec(cs, i, j);
    if j < cs.len() && cs[j] == '.' {
        let k = run_end_exec(cs, j + 1);
        let u = unit_nanos_exec(cs, k);
        let w = whole_exec(v, u);
        assert(w == whole_nanos(run_value(cs@, i as int, j as int), u as nat));
        let f: u128 = match fraction_exec(cs, j + 1, k) {
            Some((fv, den)) => {
                assert(fv * (u as u128) <= 10_000_000_000_000_000_000u128
                    * 31_557_600_000_000_000u128) by (nonlinear_arith)
                    requires
                        fv < 10_000_000_000_000_000_000u128,
                        u <= 31_557_600_000_000_000u64,
                ;
                assert(((fv * u + den - 1) as int) / (den as int) <= u) by (nonlinear_arith)
                    requires
                        fv < den,
                        den >= 1,
                ;
                (fv * (u as u128) + den - 1) / den
            },
            None => u as u128,
        };
        (w + f, k)
    } else {
        let u = unit_nanos_exec(cs, j);
        let w = whole_exec(v, u);
        assert(w == whole_nanos(run_value(cs@, i as int, j as int), u as nat));
        (w, j)
    }
}

/// Whether a duration text can be given to `humantime` without the risk
/// of a panic: its spans add up to less than 2^64 seconds.
fn fits_duration(text: &str) -> (b: bool)
    ensures
        b == duration_fits(text@),
{
    let cs = chars_of(text);
    let n = cs.len();
    let mut acc: u128 = 0;
    let mut i: usize = 0;
    while i < n
        invariant
            n == cs@.len(),
            cs@ == text@,
            i <= n,
            acc < NANOS_LIMIT,
            nanos_from(cs@, 0) == acc + nanos_from(cs@, i as int),
        decreases n - i,
    {
        if '0' <= cs[i] && cs[i] <= '9' {
            let (c, next) = span_exec(cs.as_slice(), i);
            proof {
                lemma_span_next_after(cs@, i as int);
            }
            acc = acc + c;
            if acc >= NANOS_LIMIT {
                return false;
            }
            i = next;
        } else {
            i = i + 1;
        }
    }
    true
}

/// Reads a duration text: with `humantime` when its spans add up to less
/// than 2^64 seconds, else refused with `humantime`'s message for a
/// number too large.
pub fn read_duration(text: &str) -> (r: Result<(u64, u32), String>)
    ensures
        parsed_view(r) == duration_read(text@),
        r is Ok ==> r->Ok_0.1 < 1_000_000_000,
{
    if fits_duration(text) {
        parse_duration(text)
    } else {
        Err("number is too large or cannot be represented without a lack of precision (values below 1ns are not supported)".to_owned())
    }
}

/// Calls `humantime::format_duration` on the duration of `secs` seconds
/// and `nanos` nanoseconds and returns the text it displays, as its
/// `Display` impl writes it (the crate is built without its `mu` feature,
/// so microseconds are written `us`).
#[verifier::external_body]
pub(crate) fn format_duration(secs: u64, nanos: u32) -> (r: String)
    requires
        nanos < 1_000_000_000,
    ensures
        r@ == humantime_format(secs, nanos),
{
    format!("{}", humantime::format_duration(std::time::Duration::new(secs, nanos)))
}

} // verus!

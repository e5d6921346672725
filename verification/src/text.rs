//! Character-level text helpers: decimal rendering of integers, trimming,
//! splitting at spaces, parsing of unsigned decimal numbers and substring
//! search. Everything the bot writes or reads is built from these.
use vstd::prelude::*;

verus! {

/// The characters of a string slice, in order.
#[verifier::external_body]
pub(crate) fn chars_of(s: &str) -> (v: Vec<char>)
    ensures
        v@ == s@,
{
    s.chars().collect()
}

/// A string made of the given characters, in order.
#[verifier::external_body]
pub(crate) fn string_of(v: &[char]) -> (s: String)
    ensures
        s@ == v@,
{
    v.iter().collect()
}

/// The characters of an optional text.
pub open spec fn opt_text(o: Option<String>) -> Option<Seq<char>> {
    match o {
        Some(t) => Some(t@),
        None => None,
    }
}

/// The decimal digit character for `d` (`0` to `9`).
pub open spec fn digit_char(d: nat) -> char {
    ((48 + d) as u32) as char
}

/// Decimal rendering of a natural number, without leading zeros.
pub open spec fn nat_text(n: nat) -> Seq<char>
    decreases n,
{
    if n < 10 {
        seq![digit_char(n)]
    } else {
        nat_text(n / 10).push(digit_char(n % 10))
    }
}

/// Decimal rendering of an integer: a minus sign for negative values,
/// followed by the digits of its magnitude (what `Display` prints).
pub open spec fn int_text(i: int) -> Seq<char> {
    if i < 0 {
        seq!['-'] + nat_text((-i) as nat)
    } else {
        nat_text(i as nat)
    }
}

fn digit(d: u64) -> (c: char)
    requires
        d < 10,
    ensures
        c == digit_char(d as nat),
{
    let b: u8 = 48u8 + (d as u8);
    let c = b as char;
    assert(c == digit_char(d as nat));
    c
}

/// Appends the decimal digits of `n` to `out`.
pub fn push_nat(out: &mut Vec<char>, n: u64)
    ensures
        final(out)@ == old(out)@ + nat_text(n as nat),
    decreases n,
{
    if n >= 10 {
        push_nat(out, n / 10);
        let c = digit(n % 10);
        out.push(c);
    } else {
        let c = digit(n);
        out.push(c);
    }
}

/// Appends the decimal rendering of `i` (with a minus sign when negative).
pub fn push_int(out: &mut Vec<char>, i: i64)
    ensures
        final(out)@ == old(out)@ + int_text(i as int),
{
    if i < 0 {
        out.push('-');
        let m: u64 = if i == i64::MIN {
            9223372036854775808u64
        } else {
            (-i) as u64
        };
        assert(m as int == -(i as int));
        push_nat(out, m);
        assert(final(out)@ =~= old(out)@ + int_text(i as int));
    } else {
        push_nat(out, i as u64);
    }
}

/// Appends the characters of `s` to `out`.
pub fn push_str(out: &mut Vec<char>, s: &str)
    ensures
        final(out)@ == old(out)@ + s@,
{
    let mut cs = chars_of(s);
    out.append(&mut cs);
}

/// Appends the characters of `s` to `out`.
pub fn push_chars(out: &mut Vec<char>, s: &[char])
    ensures
        final(out)@ == old(out)@ + s@,
{
    let ghost start = out@;
    let mut i: usize = 0;
    while i < s.len()
        invariant
            i <= s@.len(),
            out@ == start + s@.subrange(0, i as int),
        decreases s@.len() - i,
    {
        out.push(s[i]);
        i = i + 1;
        assert(out@ =~= start + s@.subrange(0, i as int));
    }
    assert(s@.subrange(0, s@.len() as int) =~= s@);
}

/// The decimal rendering of an unsigned number as a string.
pub fn nat_string(n: u64) -> (s: String)
    ensures
        s@ == nat_text(n as nat),
{
    let mut v: Vec<char> = Vec::new();
    push_nat(&mut v, n);
    assert(v@ =~= nat_text(n as nat));
    string_of(&v)
}

/// The decimal rendering of a signed number as a string.
pub fn int_string(i: i64) -> (s: String)
    ensures
        s@ == int_text(i as int),
{
    let mut v: Vec<char> = Vec::new();
    push_int(&mut v, i);
    assert(v@ =~= int_text(i as int));
    string_of(&v)
}

/// Unicode `White_Space` characters, the ones `char::is_whitespace` accepts.
pub open spec fn is_white(c: char) -> bool {
    ||| ('\u{9}' <= c && c <= '\u{d}')
    ||| c == ' '
    ||| c == '\u{85}'
    ||| c == '\u{a0}'
    ||| c == '\u{1680}'
    ||| ('\u{2000}' <= c && c <= '\u{200a}')
    ||| c == '\u{2028}'
    ||| c == '\u{2029}'
    ||| c == '\u{202f}'
    ||| c == '\u{205f}'
    ||| c == '\u{3000}'
}

/// Whether `c` is a Unicode whitespace character.
pub fn is_whitespace(c: char) -> (b: bool)
    ensures
        b == is_white(c),
{
    ('\u{9}' <= c && c <= '\u{d}') || c == ' ' || c == '\u{85}' || c == '\u{a0}' || c
        == '\u{1680}' || ('\u{2000}' <= c && c <= '\u{200a}') || c == '\u{2028}' || c
        == '\u{2029}' || c == '\u{202f}' || c == '\u{205f}' || c == '\u{3000}'
}

/// `s` without its leading and trailing whitespace, as `str::trim` gives it.
pub open spec fn trimmed(s: Seq<char>) -> Seq<char> {
    if forall|k: int| 0 <= k < s.len() ==> is_white(s[k]) {
        Seq::empty()
    } else {
        let a = choose|a: int|
            0 <= a < s.len() && !is_white(s[a]) && forall|j: int| 0 <= j < a ==> is_white(s[j]);
        let b = choose|b: int|
            0 <= b < s.len() && !is_white(s[b]) && forall|j: int| b < j < s.len() ==> is_white(
                s[j],
            );
        s.subrange(a, b + 1)
    }
}

/// `s` without its leading and trailing whitespace.
pub fn trim(s: &[char]) -> (t: Vec<char>)
    ensures
        t@ == trimmed(s@),
{
    let n = s.len();
    let mut a: usize = 0;
    while a < n && is_whitespace(s[a])
        invariant
            n == s@.len(),
            a <= n,
            forall|j: int| 0 <= j < a ==> is_white(s@[j]),
        decreases n - a,
    {
        a = a + 1;
    }
    if a == n {
        return Vec::new();
    }
    let mut b: usize = n - 1;
    while b > a && is_whitespace(s[b])
        invariant
            n == s@.len(),
            a < n,
            a <= b < n,
            !is_white(s@[a as int]),
            forall|j: int| b < j < n ==> is_white(s@[j]),
        decreases b,
    {
        b = b - 1;
    }
    let ghost ca = choose|x: int|
        0 <= x < s@.len() && !is_white(s@[x]) && forall|j: int| 0 <= j < x ==> is_white(s@[j]);
    let ghost cb = choose|x: int|
        0 <= x < s@.len() && !is_white(s@[x]) && forall|j: int| x < j < s@.len() ==> is_white(
            s@[j],
        );
    assert(!is_white(s@[a as int]));
    assert(!is_white(s@[b as int]));
    assert(!(forall|k: int| 0 <= k < s@.len() ==> is_white(s@[k])));
    assert(ca == a as int) by {
        if ca < a {
        } else if ca > a {
        }
    }
    assert(cb == b as int) by {
        if cb < b {
        } else if cb > b {
        }
    }
    let mut t: Vec<char> = Vec::new();
    let mut i: usize = a;
    while i <= b
        invariant
            n == s@.len(),
            a <= i <= b + 1,
            b < n,
            t@ == s@.subrange(a as int, i as int),
        decreases b + 1 - i,
    {
        t.push(s[i]);
        i = i + 1;
        assert(t@ =~= s@.subrange(a as int, i as int));
    }
    t
}

/// Whether `c` is an ASCII decimal digit (`char::is_digit(10)`).
pub open spec fn is_digit(c: char) -> bool {
    '0' <= c && c <= '9'
}

/// The value of an ASCII digit.
pub open spec fn digit_value(c: char) -> nat {
    (c as u32 - 48) as nat
}

/// The number that a run of decimal digits denotes.
pub open spec fn digits_value(s: Seq<char>) -> nat
    decreases s.len(),
{
    if s.len() == 0 {
        0
    } else {
        digits_value(s.drop_last()) * 10 + digit_value(s.last())
    }
}

/// Whether every character of `s` is a decimal digit.
pub open spec fn all_digits(s: Seq<char>) -> bool {
    forall|k: int| 0 <= k < s.len() ==> is_digit(#[trigger] s[k])
}

/// What `str::parse::<u64>` gives: an optional `+`, then at least one
/// decimal digit and nothing else, for a value that fits in 64 bits.
pub open spec fn u64_parse(s: Seq<char>) -> Option<u64> {
    let d = if s.len() > 1 && s[0] == '+' {
        s.drop_first()
    } else {
        s
    };
    if d.len() > 0 && all_digits(d) && digits_value(d) <= u64::MAX {
        Some(digits_value(d) as u64)
    } else {
        None
    }
}

proof fn lemma_digits_value_step(s: Seq<char>, i: int)
    requires
        0 <= i < s.len(),
    ensures
        digits_value(s.subrange(0, i + 1)) == digits_value(s.subrange(0, i)) * 10 + digit_value(
            s[i],
        ),
{
    assert(s.subrange(0, i + 1).drop_last() =~= s.subrange(0, i));
}

proof fn lemma_digits_value_monotone(s: Seq<char>, i: int)
    requires
        0 <= i <= s.len(),
    ensures
        digits_value(s.subrange(0, i)) <= digits_value(s),
    decreases s.len() - i,
{
    if i < s.len() {
        lemma_digits_value_monotone(s, i + 1);
        lemma_digits_value_step(s, i);
    } else {
        assert(s.subrange(0, i) =~= s);
    }
}

proof fn lemma_digit_char(d: nat)
    requires
        d < 10,
    ensures
        is_digit(digit_char(d)),
        digit_value(digit_char(d)) == d,
{
    let c = digit_char(d);
    assert(c as u32 == 48 + d);
}

/// Rendering a number in decimal and reading the digits back gives the
/// number: the text is a non-empty run of digits denoting it.
pub proof fn lemma_nat_text_reads_back(n: nat)
    ensures
        nat_text(n).len() > 0,
        all_digits(nat_text(n)),
        digits_value(nat_text(n)) == n,
    decreases n,
{
    lemma_digit_char(n % 10);
    if n < 10 {
        assert(n % 10 == n);
        assert(nat_text(n).drop_last() =~= Seq::<char>::empty());
        assert(nat_text(n).last() == digit_char(n));
        assert(digits_value(nat_text(n)) == digits_value(Seq::<char>::empty()) * 10 + digit_value(
            digit_char(n),
        ));
    } else {
        lemma_nat_text_reads_back(n / 10);
        let t = nat_text(n);
        assert(t.drop_last() =~= nat_text(n / 10));
        assert(t.last() == digit_char(n % 10));
        assert(n == (n / 10) * 10 + n % 10);
        assert forall|k: int| 0 <= k < t.len() implies is_digit(#[trigger] t[k]) by {
            if k < t.len() - 1 {
                assert(t[k] == nat_text(n / 10)[k]);
            }
        }
    }
}

/// A number rendered in decimal parses back to itself.
pub proof fn lemma_u64_text_parses_back(n: u64)
    ensures
        u64_parse(nat_text(n as nat)) == Some(n),
{
    lemma_nat_text_reads_back(n as nat);
    let t = nat_text(n as nat);
    assert(is_digit(t[0]));
}

/// Parses `s` as `str::parse::<u64>` does.
pub fn parse_u64(s: &[char]) -> (r: Option<u64>)
    ensures
        r == u64_parse(s@),
{
    let n = s.len();
    let start: usize = if n > 1 && s[0] == '+' {
        1
    } else {
        0
    };
    let ghost d = if s@.len() > 1 && s@[0] == '+' {
        s@.drop_first()
    } else {
        s@
    };
    assert(d =~= s@.subrange(start as int, n as int));
    if start == n {
        return None;
    }
    let mut value: u64 = 0;
    let mut i: usize = start;
    while i < n
        invariant
            n == s@.len(),
            start <= i <= n,
            start == (if s@.len() > 1 && s@[0] == '+' {
                1int
            } else {
                0int
            }),
            d == (if s@.len() > 1 && s@[0] == '+' {
                s@.drop_first()
            } else {
                s@
            }),
            d == s@.subrange(start as int, n as int),
            all_digits(s@.subrange(start as int, i as int)),
            value as nat == digits_value(s@.subrange(start as int, i as int)),
        decreases n - i,
    {
        let c = s[i];
        if !('0' <= c && c <= '9') {
            proof {
                assert(d[i - start] == c);
                assert(!is_digit(d[i - start]));
                assert(!all_digits(d));
            }
            return None;
        }
        let dv: u64 = ((c as u32) - 48) as u64;
        proof {
            assert(d[i - start] == c);
            assert(dv == digit_value(d[i - start]));
            lemma_digits_value_step(d, i - start);
            assert(d.subrange(0, i - start) =~= s@.subrange(start as int, i as int));
            assert(d.subrange(0, i - start + 1) =~= s@.subrange(start as int, i + 1));
        }
        if value > 1844674407370955161u64 || (value == 1844674407370955161u64 && dv > 5) {
            proof {
                lemma_digits_value_monotone(d, i - start + 1);
                assert(value * 10 + dv > u64::MAX) by (nonlinear_arith)
                    requires
                        value > 1844674407370955161u64 || (value == 1844674407370955161u64 && dv
                            > 5),
                ;
            }
            return None;
        }
        value = value * 10 + dv;
        i = i + 1;
        assert(all_digits(s@.subrange(start as int, i as int))) by {
            assert forall|k: int| 0 <= k < i - start implies is_digit(
                #[trigger] s@.subrange(start as int, i as int)[k],
            ) by {
                if k < i - 1 - start {
                    assert(s@.subrange(start as int, i - 1)[k] == s@.subrange(
                        start as int,
                        i as int,
                    )[k]);
                }
            }
        }
    }
    assert(s@.subrange(start as int, n as int) =~= d);
    Some(value)
}

/// Whether `needle` occurs in `hay` as a contiguous run of characters.
pub open spec fn contains_text(hay: Seq<char>, needle: Seq<char>) -> bool {
    exists|i: int| 0 <= i && i + needle.len() <= hay.len() && #[trigger] hay.subrange(i, i + needle.len()) == needle
}

fn matches_at(hay: &[char], needle: &[char], i: usize) -> (b: bool)
    requires
        i + needle@.len() <= hay@.len(),
    ensures
        b == (hay@.subrange(i as int, i + needle@.len()) == needle@),
{
    let mut k: usize = 0;
    while k < needle.len()
        invariant
            i + needle@.len() <= hay@.len(),
            hay@.len() == hay.len(),
            k <= needle@.len(),
            forall|j: int| 0 <= j < k ==> hay@[i + j] == needle@[j],
        decreases needle@.len() - k,
    {
        if hay[i + k] != needle[k] {
            assert(hay@.subrange(i as int, i + needle@.len())[k as int] != needle@[k as int]);
            return false;
        }
        k = k + 1;
    }
    assert(hay@.subrange(i as int, i + needle@.len()) =~= needle@);
    true
}

/// Whether `needle` occurs in `hay` (`str::contains`).
pub fn contains(hay: &[char], needle: &[char]) -> (b: bool)
    ensures
        b == contains_text(hay@, needle@),
{
    if needle.len() > hay.len() {
        return false;
    }
    let last = hay.len() - needle.len();
    let mut i: usize = 0;
    loop
        invariant
            last + needle@.len() == hay@.len(),
            i <= last,
            forall|j: int| 0 <= j < i ==> #[trigger] hay@.subrange(j, j + needle@.len()) != needle@,
        decreases last - i,
    {
        if matches_at(hay, needle, i) {
            return true;
        }
        if i == last {
            return false;
        }
        i = i + 1;
    }
}

} // verus!

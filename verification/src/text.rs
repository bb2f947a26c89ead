//! Character-level text utilities: conversions between `&str`, `Vec<char>`
//! and `String`, and decimal rendering/parsing of integers.

use vstd::prelude::*;
use vstd::string::StrSliceExecFns;

verus! {

/// The ten decimal digit characters, by value.
pub open spec fn digit_to_char(d: int) -> char {
    if d == 0 {
        '0'
    } else if d == 1 {
        '1'
    } else if d == 2 {
        '2'
    } else if d == 3 {
        '3'
    } else if d == 4 {
        '4'
    } else if d == 5 {
        '5'
    } else if d == 6 {
        '6'
    } else if d == 7 {
        '7'
    } else if d == 8 {
        '8'
    } else {
        '9'
    }
}

pub open spec fn is_digit_char(c: char) -> bool {
    48 <= c as int && c as int <= 57
}

/// Numeric value of a decimal digit character.
pub open spec fn char_to_digit(c: char) -> int {
    c as int - 48
}

fn digit_char(d: u8) -> (c: char)
    requires
        d < 10,
    ensures
        c == digit_to_char(d as int),
{
    if d == 0 {
        '0'
    } else if d == 1 {
        '1'
    } else if d == 2 {
        '2'
    } else if d == 3 {
        '3'
    } else if d == 4 {
        '4'
    } else if d == 5 {
        '5'
    } else if d == 6 {
        '6'
    } else if d == 7 {
        '7'
    } else if d == 8 {
        '8'
    } else {
        '9'
    }
}

/// Decimal representation of a natural number, most significant digit first.
pub open spec fn dec_rep(n: nat) -> Seq<char>
    decreases n,
{
    if n < 10 {
        seq![digit_to_char(n as int)]
    } else {
        dec_rep(n / 10) + seq![digit_to_char((n % 10) as int)]
    }
}

/// Appends the decimal representation of `n` to `out`.
pub fn push_u64_dec(out: &mut Vec<char>, n: u64)
    ensures
        final(out)@ == old(out)@ + dec_rep(n as nat),
    decreases n,
{
    if n < 10 {
        out.push(digit_char(n as u8));
    } else {
        push_u64_dec(out, n / 10);
        out.push(digit_char((n % 10) as u8));
    }
}

/// Relies on `String::push`: appends exactly the one character.
#[verifier::external_body]
fn push_char(s: &mut String, c: char)
    ensures
        final(s)@ == old(s)@ + seq![c],
{
    s.push(c);
}

/// Collects the characters of a string slice into a vector.
pub fn str_to_chars(s: &str) -> (r: Vec<char>)
    ensures
        r@ == s@,
{
    let n = s.unicode_len();
    let mut r: Vec<char> = Vec::new();
    let mut i: usize = 0;
    while i < n
        invariant
            i <= n,
            n == s@.len(),
            r@ == s@.subrange(0, i as int),
        decreases n - i,
    {
        r.push(s.get_char(i));
        i = i + 1;
    }
    assert(r@ =~= s@);
    r
}

/// Builds a string whose characters are exactly those of `cs`.
pub fn chars_to_string(cs: &Vec<char>) -> (r: String)
    ensures
        r@ == cs@,
{
    let mut r = String::new();
    let mut i: usize = 0;
    while i < cs.len()
        invariant
            i <= cs@.len(),
            r@ == cs@.subrange(0, i as int),
        decreases cs@.len() - i,
    {
        push_char(&mut r, cs[i]);
        i = i + 1;
    }
    assert(r@ =~= cs@);
    r
}

/// Powers of ten.
pub open spec fn pow10(k: nat) -> nat
    decreases k,
{
    if k == 0 {
        1
    } else {
        10 * pow10((k - 1) as nat)
    }
}

pub proof fn lemma_dec_rep_len(n: nat, k: nat)
    requires
        n < pow10(k),
        k >= 1,
    ensures
        dec_rep(n).len() <= k,
    decreases k,
{
    if n >= 10 {
        lemma_dec_rep_len(n / 10, (k - 1) as nat);
    }
}

/// Number of digits in the decimal representation of `n`.
pub fn dec_digit_count(n: u64) -> (c: usize)
    ensures
        c == dec_rep(n as nat).len(),
        1 <= c <= 20,
    decreases n,
{
    proof {
        reveal_with_fuel(pow10, 21);
        assert(u64::MAX < pow10(20));
        lemma_dec_rep_len(n as nat, 20);
    }
    if n < 10 {
        1
    } else {
        1 + dec_digit_count(n / 10)
    }
}

/// Decimal representation of `n`, left-padded with zeros to at least `width`
/// characters.
pub open spec fn padded_dec(n: nat, width: nat) -> Seq<char> {
    if dec_rep(n).len() >= width {
        dec_rep(n)
    } else {
        Seq::new((width - dec_rep(n).len()) as nat, |i: int| '0') + dec_rep(n)
    }
}

/// Appends the decimal representation of `n`, zero-padded to at least
/// `width` characters.
pub fn push_u64_padded(out: &mut Vec<char>, n: u64, width: usize)
    ensures
        final(out)@ == old(out)@ + padded_dec(n as nat, width as nat),
{
    let digits = dec_digit_count(n);
    let mut pad: usize = 0;
    let ghost prefix = out@;
    while pad + digits < width
        invariant
            out@ == prefix + Seq::new(pad as nat, |i: int| '0'),
            digits == dec_rep(n as nat).len(),
            pad + digits <= width || pad == 0,
        decreases width - pad,
    {
        out.push('0');
        pad = pad + 1;
        assert(out@ =~= prefix + Seq::new(pad as nat, |i: int| '0'));
    }
    push_u64_dec(out, n);
    assert(out@ =~= prefix + padded_dec(n as nat, width as nat));
}

/// Decimal text of a signed integer: a minus sign for negative values,
/// then the digits of the magnitude.
pub open spec fn i64_dec_text(v: int) -> Seq<char> {
    if v < 0 {
        seq!['-'] + dec_rep((-v) as nat)
    } else {
        dec_rep(v as nat)
    }
}

/// Appends the decimal text of a signed integer.
pub fn push_i64_dec(out: &mut Vec<char>, v: i64)
    ensures
        final(out)@ == old(out)@ + i64_dec_text(v as int),
{
    if v < 0 {
        out.push('-');
        let m: u64 = ((-(v + 1)) as u64) + 1;
        assert(m as int == -(v as int));
        push_u64_dec(out, m);
        assert(out@ =~= old(out)@ + i64_dec_text(v as int));
    } else {
        push_u64_dec(out, v as u64);
    }
}

/// Renders a signed integer as decimal text.
pub fn i64_to_string(v: i64) -> (r: String)
    ensures
        r@ == i64_dec_text(v as int),
{
    let mut cs: Vec<char> = Vec::new();
    push_i64_dec(&mut cs, v);
    chars_to_string(&cs)
}

pub open spec fn all_digits(s: Seq<char>) -> bool {
    forall|i: int| 0 <= i < s.len() ==> is_digit_char(#[trigger] s[i])
}

/// Value of a sequence of decimal digit characters, most significant first.
pub open spec fn digits_val(s: Seq<char>) -> int
    decreases s.len(),
{
    if s.len() == 0 {
        0
    } else {
        digits_val(s.drop_last()) * 10 + char_to_digit(s.last())
    }
}

/// The integer denoted by optionally signed decimal text, if well formed:
/// an optional `+` or `-` sign followed by one or more digits and nothing
/// else.
pub open spec fn int_text_val(s: Seq<char>) -> Option<int> {
    if s.len() >= 1 && (s[0] == '+' || s[0] == '-') {
        let mag = s.subrange(1, s.len() as int);
        if mag.len() >= 1 && all_digits(mag) {
            Some(
                if s[0] == '-' {
                    -digits_val(mag)
                } else {
                    digits_val(mag)
                },
            )
        } else {
            None
        }
    } else if s.len() >= 1 && all_digits(s) {
        Some(digits_val(s))
    } else {
        None
    }
}

/// What `parse_i64` yields: the denoted integer when the text is well
/// formed and the value fits in an `i64`.
pub open spec fn parse_i64_spec(s: Seq<char>) -> Option<int> {
    match int_text_val(s) {
        Some(v) => if i64::MIN <= v <= i64::MAX {
            Some(v)
        } else {
            None
        },
        None => None,
    }
}

pub proof fn lemma_digits_val_nonneg(s: Seq<char>)
    requires
        all_digits(s),
    ensures
        digits_val(s) >= 0,
    decreases s.len(),
{
    if s.len() > 0 {
        assert(all_digits(s.drop_last()));
        lemma_digits_val_nonneg(s.drop_last());
    }
}

/// A longer digit string never denotes a smaller value.
pub proof fn lemma_digits_val_monotone(s: Seq<char>, i: int, j: int)
    requires
        all_digits(s),
        0 <= i <= j <= s.len(),
    ensures
        digits_val(s.subrange(0, i)) <= digits_val(s.subrange(0, j)),
    decreases j - i,
{
    if i < j {
        lemma_digits_val_monotone(s, i, j - 1);
        let p = s.subrange(0, j);
        let q = s.subrange(0, j - 1);
        assert(p.drop_last() =~= q);
        assert(all_digits(q));
        lemma_digits_val_nonneg(q);
        assert(digits_val(q) * 10 >= digits_val(q)) by (nonlinear_arith)
            requires
                digits_val(q) >= 0,
        ;
    }
}

/// Decimal digit value of a character, when it is one.
pub(crate) fn digit_value(c: char) -> (r: Option<u8>)
    ensures
        match r {
            Some(d) => is_digit_char(c) && d as int == char_to_digit(c) && d < 10,
            None => !is_digit_char(c),
        },
{
    if c == '0' {
        Some(0)
    } else if c == '1' {
        Some(1)
    } else if c == '2' {
        Some(2)
    } else if c == '3' {
        Some(3)
    } else if c == '4' {
        Some(4)
    } else if c == '5' {
        Some(5)
    } else if c == '6' {
        Some(6)
    } else if c == '7' {
        Some(7)
    } else if c == '8' {
        Some(8)
    } else if c == '9' {
        Some(9)
    } else {
        None
    }
}

/// Parses optionally signed decimal text as an `i64`, exactly when the
/// text is well formed and the value is in range.
#[verifier::loop_isolation(false)]
pub fn parse_i64(s: &str) -> (r: Option<i64>)
    ensures
        match r {
            Some(v) => parse_i64_spec(s@) == Some(v as int),
            None => parse_i64_spec(s@) is None,
        },
{
    let cs = str_to_chars(s);
    let n = cs.len();
    if n == 0 {
        return None;
    }
    let c0 = cs[0];
    let neg = c0 == '-';
    let start: usize = if c0 == '-' || c0 == '+' {
        1
    } else {
        0
    };
    if n == start {
        return None;
    }
    let limit: u64 = if neg {
        9223372036854775808u64
    } else {
        9223372036854775807u64
    };
    let ghost mag = cs@.subrange(start as int, n as int);
    let mut acc: u64 = 0;
    let mut i: usize = start;
    while i < n
        invariant
            start <= i <= n,
            n == cs@.len(),
            cs@ == s@,
            mag == cs@.subrange(start as int, n as int),
            all_digits(cs@.subrange(start as int, i as int)),
            acc == digits_val(cs@.subrange(start as int, i as int)),
            acc <= limit,
            limit == if neg {
                9223372036854775808u64
            } else {
                9223372036854775807u64
            },
        decreases n - i,
    {
        let c = cs[i];
        let d: u64 = match digit_value(c) {
            None => {
                proof {
                    assert(!is_digit_char(cs@[i as int]));
                    assert(mag[i - start] == cs@[i as int]);
                    assert(!all_digits(mag));
                    if start == 0 {
                        assert(mag =~= s@);
                    } else {
                        assert(mag =~= s@.subrange(1, s@.len() as int));
                    }
                }
                return None;
            },
            Some(v) => v as u64,
        };
        proof {
            assert(is_digit_char(c));
            assert(char_to_digit(c) == d as int);
        }
        if acc > (limit - d) / 10 {
            proof {
                let p = cs@.subrange(start as int, i + 1);
                assert(p.drop_last() =~= cs@.subrange(start as int, i as int));
                assert(digits_val(p) == acc * 10 + d);
                assert(acc * 10 + d > limit) by (nonlinear_arith)
                    requires
                        acc > (limit - d) / 10,
                        0 <= d <= 9,
                        d <= limit,
                        acc >= 0,
                ;
                if all_digits(mag) {
                    assert(p =~= mag.subrange(0, i + 1 - start));
                    assert(mag =~= mag.subrange(0, mag.len() as int));
                    lemma_digits_val_monotone(mag, i + 1 - start, mag.len() as int);
                    assert(digits_val(mag) >= digits_val(p));
                }
                if start == 0 {
                    assert(mag =~= s@);
                } else {
                    assert(mag =~= s@.subrange(1, s@.len() as int));
                }
            }
            return None;
        }
        proof {
            assert(acc * 10 + d <= limit) by (nonlinear_arith)
                requires
                    acc <= (limit - d) / 10,
                    0 <= d <= 9,
                    d <= limit,
                    acc >= 0,
            ;
            let p = cs@.subrange(start as int, i + 1);
            assert(p.drop_last() =~= cs@.subrange(start as int, i as int));
        }
        acc = acc * 10 + d;
        i = i + 1;
    }
    proof {
        assert(cs@.subrange(start as int, i as int) =~= mag);
        lemma_digits_val_nonneg(mag);
        if start == 0 {
            assert(mag =~= s@);
        } else {
            assert(mag =~= s@.subrange(1, s@.len() as int));
        }
    }
    if neg {
        if acc == 9223372036854775808u64 {
            Some(i64::MIN)
        } else {
            Some(-(acc as i64))
        }
    } else {
        Some(acc as i64)
    }
}

} // verus!

//! Decimal text for 64-bit integers: rendering and parsing, both verified
//! against the same sequence-level definitions.

use vstd::prelude::*;
use vstd::string::StringExecFns;

verus! {

/// The character for a single decimal digit.
pub open spec fn digit_char(d: nat) -> char {
    if d == 0 { '0' }
    else if d == 1 { '1' }
    else if d == 2 { '2' }
    else if d == 3 { '3' }
    else if d == 4 { '4' }
    else if d == 5 { '5' }
    else if d == 6 { '6' }
    else if d == 7 { '7' }
    else if d == 8 { '8' }
    else { '9' }
}

/// Decimal text of a natural number: no sign, no grouping, no leading zeros
/// (except that zero itself is "0").
pub open spec fn spec_udec(n: nat) -> Seq<char>
    decreases n,
{
    if n < 10 {
        seq![digit_char(n)]
    } else {
        spec_udec(n / 10) + seq![digit_char(n % 10)]
    }
}

/// Decimal text of an integer: a leading '-' for negative values.
pub open spec fn spec_idec(i: int) -> Seq<char> {
    if i < 0 {
        seq!['-'] + spec_udec((-i) as nat)
    } else {
        spec_udec(i as nat)
    }
}

/// Whether `c` is an ASCII decimal digit.
pub open spec fn is_dec_digit(c: char) -> bool {
    48 <= c as u32 && c as u32 <= 57
}

/// The numeric value of a decimal digit character.
pub open spec fn digit_val(c: char) -> nat
    recommends
        is_dec_digit(c),
{
    (c as u32 - 48) as nat
}

/// Whether every character of `s` is a decimal digit.
pub open spec fn all_dec_digits(s: Seq<char>) -> bool {
    forall|i: int| 0 <= i < s.len() ==> is_dec_digit(#[trigger] s[i])
}

/// The value of a string of decimal digits, most significant first.
pub open spec fn digits_val(s: Seq<char>) -> nat
    decreases s.len(),
{
    if s.len() == 0 {
        0
    } else {
        digits_val(s.drop_last()) * 10 + digit_val(s.last())
    }
}

/// What `parse_i64` accepts and returns: an optional ASCII sign followed by
/// one or more decimal digits, whose signed value fits in 64 bits.
pub open spec fn spec_parse_i64(s: Seq<char>) -> Option<int> {
    let neg = s.len() > 0 && s[0] == '-';
    let body = if s.len() > 0 && (s[0] == '-' || s[0] == '+') {
        s.drop_first()
    } else {
        s
    };
    if body.len() > 0 && all_dec_digits(body) {
        let v: int = if neg {
            -(digits_val(body) as int)
        } else {
            digits_val(body) as int
        };
        if i64::MIN <= v <= i64::MAX {
            Some(v)
        } else {
            None
        }
    } else {
        None
    }
}

/// A one-character string for a decimal digit.
fn digit_str(d: u64) -> (s: &'static str)
    requires
        d < 10,
    ensures
        s@ == seq![digit_char(d as nat)],
{
    let s: &'static str = if d == 0 { "0" }
    else if d == 1 { "1" }
    else if d == 2 { "2" }
    else if d == 3 { "3" }
    else if d == 4 { "4" }
    else if d == 5 { "5" }
    else if d == 6 { "6" }
    else if d == 7 { "7" }
    else if d == 8 { "8" }
    else { "9" };
    proof {
        reveal_strlit("0");
        reveal_strlit("1");
        reveal_strlit("2");
        reveal_strlit("3");
        reveal_strlit("4");
        reveal_strlit("5");
        reveal_strlit("6");
        reveal_strlit("7");
        reveal_strlit("8");
        reveal_strlit("9");
        assert(s@ =~= seq![digit_char(d as nat)]);
    }
    s
}

/// Appends the decimal text of `n` to `buf`.
pub fn push_u64_dec(buf: &mut String, n: u64)
    ensures
        final(buf)@ == old(buf)@ + spec_udec(n as nat),
    decreases n,
{
    if n < 10 {
        buf.append(digit_str(n));
        assert(buf@ =~= old(buf)@ + spec_udec(n as nat));
    } else {
        push_u64_dec(buf, n / 10);
        buf.append(digit_str(n % 10));
        assert(buf@ =~= old(buf)@ + spec_udec(n as nat));
    }
}

/// Appends the decimal text of `i` to `buf`, with a leading '-' when negative.
pub fn push_i64_dec(buf: &mut String, i: i64)
    ensures
        final(buf)@ == old(buf)@ + spec_idec(i as int),
{
    if i < 0 {
        buf.append("-");
        let mag: u64 = (-(i as i128)) as u64;
        push_u64_dec(buf, mag);
        proof {
            reveal_strlit("-");
            assert(buf@ =~= old(buf)@ + spec_idec(i as int));
        }
    } else {
        push_u64_dec(buf, i as u64);
    }
}

/// The value of a digit string only grows as digits are appended, so a
/// prefix never exceeds the whole.
proof fn lemma_digits_val_prefix(s: Seq<char>, k: int)
    requires
        0 <= k <= s.len(),
    ensures
        digits_val(s.subrange(0, k)) <= digits_val(s),
    decreases s.len(),
{
    if k < s.len() {
        lemma_digits_val_prefix(s.drop_last(), k);
        assert(s.drop_last().subrange(0, k) =~= s.subrange(0, k));
        assert(digits_val(s) == digits_val(s.drop_last()) * 10 + digit_val(s.last()));
        assert(digits_val(s.drop_last()) * 10 >= digits_val(s.drop_last()));
    } else {
        assert(s.subrange(0, k) =~= s);
    }
}

/// Parses `s` as a 64-bit signed decimal integer: an optional '+' or '-'
/// sign followed by one or more digits, rejecting anything else and any
/// value outside the 64-bit range.
pub fn parse_i64(s: &str) -> (r: Option<i64>)
    ensures
        r matches Some(v) ==> spec_parse_i64(s@) == Some(v as int),
        r is None ==> spec_parse_i64(s@) is None,
{
    let n = s.unicode_len();
    if n == 0 {
        return None;
    }
    let first = s.get_char(0);
    let neg = first == '-';
    let start: usize = if first == '-' || first == '+' { 1 } else { 0 };
    if start == n {
        return None;
    }
    let ghost body = s@.subrange(start as int, n as int);
    assert(body.len() > 0);
    proof {
        if start == 1 {
            assert(body =~= s@.drop_first());
        } else {
            assert(body =~= s@);
        }
    }
    // The magnitude bound: 2^63 for negative values, 2^63 - 1 for positive.
    let cap: u64 = if neg { 9223372036854775808 } else { 9223372036854775807 };
    let mut acc: u64 = 0;
    let mut i = start;
    while i < n
        invariant
            start <= i <= n,
            n == s@.len(),
            start == 1 ==> s@[0] == '-' || s@[0] == '+',
            start == 0 ==> !(s@[0] == '-' || s@[0] == '+'),
            neg == (s@[0] == '-'),
            cap == if neg { 9223372036854775808u64 } else { 9223372036854775807u64 },
            body == s@.subrange(start as int, n as int),
            s@[0] == '-' || s@[0] == '+' ==> body == s@.drop_first(),
            !(s@[0] == '-' || s@[0] == '+') ==> body == s@,
            body.len() > 0,
            acc as nat == digits_val(s@.subrange(start as int, i as int)),
            acc <= cap,
            all_dec_digits(s@.subrange(start as int, i as int)),
        decreases n - i,
    {
        let c = s.get_char(i);
        let u = c as u32;
        if u < 48 || u > 57 {
            // A non-digit inside the body: the spec rejects the input.
            assert(body[i - start as int] == s@[i as int]);
            assert(!all_dec_digits(body));
            return None;
        }
        let d: u64 = (u - 48) as u64;
        let ghost pre = s@.subrange(start as int, i as int);
        let ghost pre1 = s@.subrange(start as int, i as int + 1);
        proof {
            assert(pre1 =~= pre.push(s@[i as int]));
            assert(pre1.drop_last() =~= pre);
            assert(digits_val(pre1) == digits_val(pre) * 10 + digit_val(s@[i as int]));
        }
        if acc > cap / 10 || (acc == cap / 10 && d > cap % 10) {
            // The magnitude already exceeds the 64-bit bound; later digits
            // can only grow it, so the spec rejects the input.
            proof {
                assert(digits_val(pre1) > cap);
                assert(pre1 =~= body.subrange(0, i + 1 - start as int));
                lemma_digits_val_prefix(body, i + 1 - start as int);
                assert(digits_val(body) > cap);
            }
            return None;
        }
        acc = acc * 10 + d;
        i = i + 1;
        proof {
            assert(s@.subrange(start as int, i as int) =~= pre1);
        }
    }
    proof {
        assert(s@.subrange(start as int, i as int) =~= body);
    }
    if neg {
        let v: i64 = (-(acc as i128)) as i64;
        assert(spec_parse_i64(s@) == Some(v as int));
        Some(v)
    } else {
        let v: i64 = acc as i64;
        assert(spec_parse_i64(s@) == Some(v as int));
        Some(v)
    }
}

} // verus!

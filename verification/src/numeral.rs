//! Decimal numerals for level values: what a string of digits denotes,
//! how a level value is written, and the executable readers and writers,
//! proved inverse to one another.

use vstd::prelude::*;

use crate::error::ParseUniclassError;

verus! {

/// Whether `c` is a decimal digit.
pub open spec fn is_digit(c: char) -> bool {
    '0' <= c && c <= '9'
}

/// The value of the digit `c`.
pub open spec fn digit_val(c: char) -> int {
    c as int - '0' as int
}

/// The digit character for a value in 0..=9.
pub open spec fn digit_char(d: int) -> char {
    if d == 0 {
        '0'
    } else if d == 1 {
        '1'
    } else if d == 2 {
        '2'
    } else if d == 3 {
        '3'
    } else if d == 4 {
        '4'
    } else if d == 5 {
        '5'
    } else if d == 6 {
        '6'
    } else if d == 7 {
        '7'
    } else if d == 8 {
        '8'
    } else {
        '9'
    }
}

/// A numeral is a non-empty string of digits and nothing else.
pub open spec fn is_numeral(s: Seq<char>) -> bool {
    s.len() > 0 && forall|i: int| 0 <= i < s.len() ==> is_digit(#[trigger] s[i])
}

/// The non-negative integer a string of digits denotes, read in the
/// usual way with the most significant digit first.
pub open spec fn numeral_val(s: Seq<char>) -> int
    decreases s.len(),
{
    if s.len() == 0 {
        0
    } else {
        numeral_val(s.drop_last()) * 10 + digit_val(s.last())
    }
}

/// The shortest decimal numeral for `n`, for `n` in 0..=999: no leading
/// zeros except for the numeral `0` itself.
pub open spec fn dec_of(n: int) -> Seq<char> {
    if n < 10 {
        seq![digit_char(n)]
    } else if n < 100 {
        seq![digit_char(n / 10), digit_char(n % 10)]
    } else {
        seq![digit_char(n / 100), digit_char((n / 10) % 10), digit_char(n % 10)]
    }
}

/// Writing a value in 0..=999 and reading it back recovers the value;
/// the numeral consists of digits only, so in particular it never
/// contains the `_` delimiter.
pub proof fn lemma_dec_of_val(n: int)
    requires
        0 <= n <= 999,
    ensures
        is_numeral(dec_of(n)),
        numeral_val(dec_of(n)) == n,
        forall|i: int| 0 <= i < dec_of(n).len() ==> #[trigger] dec_of(n)[i] != '_',
{
    let s = dec_of(n);
    assert forall|d: int| 0 <= d <= 9 implies is_digit(digit_char(d)) && digit_val(digit_char(d))
        == d && digit_char(d) != '_' by {
        assert('0' as int == 48 && '1' as int == 49 && '2' as int == 50 && '3' as int == 51 && '4'
            as int == 52 && '5' as int == 53 && '6' as int == 54 && '7' as int == 55 && '8' as int
            == 56 && '9' as int == 57);
    }
    if n < 10 {
        lemma_numeral_val_single(digit_char(n));
    } else if n < 100 {
        lemma_numeral_val_single(digit_char(n / 10));
        lemma_numeral_val_push(seq![digit_char(n / 10)], digit_char(n % 10));
        assert(seq![digit_char(n / 10)].push(digit_char(n % 10)) =~= s);
        assert((n / 10) * 10 + n % 10 == n) by {
            vstd::arithmetic::div_mod::lemma_fundamental_div_mod(n, 10);
        }
    } else {
        let t = seq![digit_char(n / 100), digit_char((n / 10) % 10)];
        lemma_numeral_val_single(digit_char(n / 100));
        lemma_numeral_val_push(seq![digit_char(n / 100)], digit_char((n / 10) % 10));
        assert(seq![digit_char(n / 100)].push(digit_char((n / 10) % 10)) =~= t);
        lemma_numeral_val_push(t, digit_char(n % 10));
        assert(t.push(digit_char(n % 10)) =~= s);
        assert(numeral_val(t) == (n / 100) * 10 + (n / 10) % 10);
        assert(((n / 100) * 10 + (n / 10) % 10) * 10 + n % 10 == n) by {
            vstd::arithmetic::div_mod::lemma_fundamental_div_mod(n, 10);
            vstd::arithmetic::div_mod::lemma_fundamental_div_mod(n / 10, 10);
            assert((n / 10) / 10 == n / 100) by {
                vstd::arithmetic::div_mod::lemma_div_denominator(n, 10, 10);
            }
            assert(((n / 100) * 10 + (n / 10) % 10) * 10 == (n / 100) * 10 * 10 + ((n / 10) % 10)
                * 10) by (nonlinear_arith);
        }
    }
}

/// A single digit denotes its own value.
proof fn lemma_numeral_val_single(c: char)
    ensures
        numeral_val(seq![c]) == digit_val(c),
{
    assert(seq![c].drop_last() =~= Seq::<char>::empty());
    assert(numeral_val(Seq::<char>::empty()) == 0);
    assert(numeral_val(seq![c]) == numeral_val(seq![c].drop_last()) * 10 + digit_val(
        seq![c].last(),
    ));
}

/// Appending a digit multiplies the value by ten and adds the digit, so
/// a numeral's value never shrinks as it grows longer.
proof fn lemma_numeral_val_push(s: Seq<char>, c: char)
    ensures
        numeral_val(s.push(c)) == numeral_val(s) * 10 + digit_val(c),
{
    assert(s.push(c).drop_last() =~= s);
    assert(s.push(c).last() == c);
}

/// The numeral for a digit value, as a one-character string slice.
fn digit_str(d: u8) -> (r: &'static str)
    requires
        d <= 9,
    ensures
        r@ =~= seq![digit_char(d as int)],
{
    proof {
        reveal_strlit("0");
        reveal_strlit("1");
        reveal_strlit("2");
        reveal_strlit("3");
        reveal_strlit("4");
        reveal_strlit("5");
        reveal_strlit("6");
        reveal_strlit("7");
        reveal_strlit("8");
        reveal_strlit("9");
    }
    match d {
        0 => "0",
        1 => "1",
        2 => "2",
        3 => "3",
        4 => "4",
        5 => "5",
        6 => "6",
        7 => "7",
        8 => "8",
        _ => "9",
    }
}

/// Write a level value as its shortest decimal numeral.
pub(crate) fn format_level(v: u8) -> (r: String)
    ensures
        r@ == dec_of(v as int),
{
    if v < 10 {
        let r = String::from_str(digit_str(v));
        proof {
            assert(r@ =~= dec_of(v as int));
        }
        r
    } else if v < 100 {
        let mut r = String::from_str(digit_str(v / 10));
        r.append(digit_str(v % 10));
        proof {
            assert(r@ =~= dec_of(v as int));
        }
        r
    } else {
        let mut r = String::from_str(digit_str(v / 100));
        r.append(digit_str((v / 10) % 10));
        r.append(digit_str(v % 10));
        proof {
            assert(r@ =~= dec_of(v as int));
        }
        r
    }
}

/// What reading one level token yields: the value for a numeral that
/// denotes at most 127, `OutOfRange` for a numeral that denotes more,
/// and `ParseIntError` for anything that is not a numeral.
pub open spec fn spec_parse_level(tok: Seq<char>) -> Result<u8, ParseUniclassError> {
    if !is_numeral(tok) {
        Err(ParseUniclassError::ParseIntError)
    } else if numeral_val(tok) > 127 {
        Err(ParseUniclassError::OutOfRange)
    } else {
        Ok(numeral_val(tok) as u8)
    }
}

/// Read the level token standing at `s[start..end]`.
///
/// The running value saturates at 128: once a prefix already denotes
/// more than 127 the token is out of range however it continues.
pub(crate) fn parse_level(s: &str, start: usize, end: usize) -> (r: Result<
    u8,
    ParseUniclassError,
>)
    requires
        start <= end <= s@.len(),
    ensures
        r == spec_parse_level(s@.subrange(start as int, end as int)),
        r matches Ok(v) ==> v <= 127,
{
    let ghost tok = s@.subrange(start as int, end as int);
    if start == end {
        assert(!is_numeral(tok));
        return Err(ParseUniclassError::ParseIntError);
    }
    let mut acc: u32 = 0;
    let mut i: usize = start;
    while i < end
        invariant
            start <= i <= end <= s@.len(),
            end <= usize::MAX,
            tok == s@.subrange(start as int, end as int),
            forall|j: int| 0 <= j < i - start ==> is_digit(#[trigger] tok[j]),
            acc <= 128,
            acc <= 127 ==> acc == numeral_val(tok.subrange(0, i - start)),
            acc == 128 ==> numeral_val(tok.subrange(0, i - start)) > 127,
        decreases end - i,
    {
        let c = s.get_char(i);
        proof {
            assert(tok[i - start] == s@[i as int]);
        }
        if !(c >= '0' && c <= '9') {
            assert(!is_digit(tok[i - start]));
            assert(!is_numeral(tok));
            return Err(ParseUniclassError::ParseIntError);
        }
        let d: u32 = (c as u32) - ('0' as u32);
        proof {
            let p = tok.subrange(0, i - start);
            lemma_numeral_val_push(p, tok[i - start]);
            assert(p.push(tok[i - start]) =~= tok.subrange(0, i - start + 1));
        }
        let next = acc * 10 + d;
        if next > 127 {
            acc = 128;
        } else {
            acc = next;
        }
        i += 1;
    }
    proof {
        assert(tok.subrange(0, end - start) =~= tok);
    }
    if acc > 127 {
        Err(ParseUniclassError::OutOfRange)
    } else {
        Ok(acc as u8)
    }
}

} // verus!

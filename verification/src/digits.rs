//! Decimal numerals over characters and over bytes.
//!
//! Address texts are sequences of characters, HTTP messages are sequences of
//! bytes; both need exact decimal rendering and parsing, so the numeral
//! theory is stated once for each carrier.

use vstd::prelude::*;

verus! {

// ---------------------------------------------------------------------------
// Character numerals (used by the address model)
// ---------------------------------------------------------------------------

/// `c` is one of the characters `'0'` through `'9'`.
pub open spec fn is_digit_char(c: char) -> bool {
    48 <= c as u32 && c as u32 <= 57
}

/// Numeric value of a digit character.
pub open spec fn char_val(c: char) -> int {
    c as u32 - 48
}

/// Every character of `s` is a decimal digit.
pub open spec fn all_digit_chars(s: Seq<char>) -> bool {
    forall|i: int| 0 <= i < s.len() ==> is_digit_char(#[trigger] s[i])
}

/// Value of a digit string, most significant digit first.
pub open spec fn dec_val_chars(s: Seq<char>) -> int
    decreases s.len(),
{
    if s.len() == 0 {
        0
    } else {
        dec_val_chars(s.drop_last()) * 10 + char_val(s.last())
    }
}

/// The digit character for `d` (`d <= 9`).
pub open spec fn digit_char(d: int) -> char {
    ((48 + d) as u8) as char
}

/// Canonical decimal rendering of `n`: no leading zeros, `"0"` for zero.
pub open spec fn dec_chars(n: int) -> Seq<char>
    decreases n,
{
    if n <= 0 {
        seq![digit_char(0)]
    } else if n < 10 {
        seq![digit_char(n)]
    } else {
        dec_chars(n / 10).push(digit_char(n % 10))
    }
}

/// A digit string without leading zeros.
pub open spec fn canonical_digit_chars(s: Seq<char>) -> bool {
    &&& s.len() >= 1
    &&& all_digit_chars(s)
    &&& (s.len() > 1 ==> s[0] != digit_char(0))
}

pub proof fn lemma_dec_val_chars_nonneg(s: Seq<char>)
    requires
        all_digit_chars(s),
    ensures
        dec_val_chars(s) >= 0,
    decreases s.len(),
{
    if s.len() > 0 {
        assert(all_digit_chars(s.drop_last())) by {
            assert(forall|i: int|
                0 <= i < s.drop_last().len() ==> s.drop_last()[i] == s[i]);
        }
        lemma_dec_val_chars_nonneg(s.drop_last());
        assert(dec_val_chars(s.drop_last()) * 10 >= 0) by (nonlinear_arith)
            requires dec_val_chars(s.drop_last()) >= 0;
    }
}

/// Appending a digit multiplies the value by ten and adds the digit.
pub proof fn lemma_dec_val_chars_push(s: Seq<char>, c: char)
    ensures
        dec_val_chars(s.push(c)) == dec_val_chars(s) * 10 + char_val(c),
{
    assert(s.push(c).drop_last() =~= s);
    assert(s.push(c).last() == c);
}

/// A digit prefix never exceeds the value of the whole string.
pub proof fn lemma_dec_val_chars_prefix_le(s: Seq<char>, i: int)
    requires
        all_digit_chars(s),
        0 <= i <= s.len(),
    ensures
        dec_val_chars(s.take(i)) <= dec_val_chars(s),
    decreases s.len() - i,
{
    if i < s.len() {
        lemma_dec_val_chars_prefix_le(s, i + 1);
        assert(s.take(i + 1).drop_last() =~= s.take(i));
        assert(s.take(i + 1).last() == s[i]);
        assert(all_digit_chars(s.take(i))) by {
            assert(forall|j: int| 0 <= j < i ==> s.take(i)[j] == s[j]);
        }
        lemma_dec_val_chars_nonneg(s.take(i));
        assert(dec_val_chars(s.take(i)) * 10 >= dec_val_chars(s.take(i))) by (nonlinear_arith)
            requires dec_val_chars(s.take(i)) >= 0;
        assert(is_digit_char(s[i]));
        assert(dec_val_chars(s.take(i + 1)) >= dec_val_chars(s.take(i)));
    } else {
        assert(s.take(i) =~= s);
    }
}

/// The canonical rendering consists of digits only.
pub proof fn lemma_dec_chars_all_digits(n: int)
    ensures
        all_digit_chars(dec_chars(n)),
        dec_chars(n).len() >= 1,
    decreases n,
{
    if n <= 0 {
        assert(is_digit_char(digit_char(0)));
    } else if n < 10 {
        assert(is_digit_char(digit_char(n)));
    } else {
        lemma_dec_chars_all_digits(n / 10);
        assert(0 <= n % 10 < 10);
        assert(is_digit_char(digit_char(n % 10)));
        assert(forall|i: int|
            0 <= i < dec_chars(n).len() ==> is_digit_char(#[trigger] dec_chars(n)[i])) by {
            assert(dec_chars(n) == dec_chars(n / 10).push(digit_char(n % 10)));
            assert(forall|i: int|
                0 <= i < dec_chars(n / 10).len()
                    ==> dec_chars(n)[i] == #[trigger] dec_chars(n / 10)[i]);
        }
    }
}

/// Rendering then evaluating gives back the number.
pub proof fn lemma_dec_chars_val(n: int)
    requires
        n >= 0,
    ensures
        dec_val_chars(dec_chars(n)) == n,
    decreases n,
{
    if n < 10 {
        assert(dec_chars(n) =~= seq![digit_char(n)]);
        assert(dec_chars(n).drop_last() =~= Seq::<char>::empty());
        assert(dec_val_chars(Seq::<char>::empty()) == 0);
        assert(dec_chars(n).last() == digit_char(n));
        assert(char_val(digit_char(n)) == n);
        assert(dec_val_chars(dec_chars(n)) == 0 * 10 + char_val(digit_char(n)));
    } else {
        lemma_dec_chars_val(n / 10);
        lemma_dec_val_chars_push(dec_chars(n / 10), digit_char(n % 10));
        assert(char_val(digit_char(n % 10)) == n % 10);
        assert(n / 10 * 10 + n % 10 == n) by (nonlinear_arith)
            requires n >= 0;
    }
}

/// The canonical rendering has no leading zero.
pub proof fn lemma_dec_chars_canonical(n: int)
    ensures
        canonical_digit_chars(dec_chars(n)),
        n >= 1 ==> dec_chars(n)[0] != digit_char(0),
    decreases n,
{
    lemma_dec_chars_all_digits(n);
    if n >= 10 {
        lemma_dec_chars_canonical(n / 10);
        assert(dec_chars(n) == dec_chars(n / 10).push(digit_char(n % 10)));
        assert(dec_chars(n)[0] == dec_chars(n / 10)[0]);
        assert(n / 10 >= 1);
    } else if n > 0 {
        assert(dec_chars(n) =~= seq![digit_char(n)]);
        assert(digit_char(n) as u32 == 48 + n);
        assert(digit_char(0) as u32 == 48);
    }
}

/// A single-character string for each digit, the executable side of
/// `digit_char`.
pub fn digit_str(d: u8) -> (r: &'static str)
    requires
        d <= 9,
    ensures
        r@ =~= seq![digit_char(d as int)],
{
    proof {
        reveal_strlit("0");
        reveal_strlit("1");
        reveal_strlit("2");
        reveal_strlit("3");
        reveal_strlit("4");
        reveal_strlit("5");
        reveal_strlit("6");
        reveal_strlit("7");
        reveal_strlit("8");
        reveal_strlit("9");
    }
    match d {
        0 => "0",
        1 => "1",
        2 => "2",
        3 => "3",
        4 => "4",
        5 => "5",
        6 => "6",
        7 => "7",
        8 => "8",
        _ => "9",
    }
}

/// Append the canonical decimal rendering of `n` to `out`.
pub fn append_dec_chars(out: &mut String, n: u64)
    ensures
        final(out)@ == old(out)@ + dec_chars(n as int),
    decreases n,
{
    if n < 10 {
        out.append(digit_str(n as u8));
        assert(final(out)@ =~= old(out)@ + dec_chars(n as int));
    } else {
        append_dec_chars(out, n / 10);
        out.append(digit_str((n % 10) as u8));
        assert(final(out)@ =~= old(out)@ + dec_chars(n as int));
    }
}

// ---------------------------------------------------------------------------
// Byte numerals (used by the HTTP codec)
// ---------------------------------------------------------------------------

/// `b` is one of the bytes `b'0'` through `b'9'`.
pub open spec fn is_digit_byte(b: u8) -> bool {
    48 <= b && b <= 57
}

/// Every byte of `s` is a decimal digit.
pub open spec fn all_digit_bytes(s: Seq<u8>) -> bool {
    forall|i: int| 0 <= i < s.len() ==> is_digit_byte(#[trigger] s[i])
}

/// Numeric value of a digit byte.
pub open spec fn byte_val(b: u8) -> int {
    b - 48
}

/// The digit byte for `d` (`d <= 9`).
pub open spec fn digit_byte(d: int) -> u8 {
    (48 + d) as u8
}

/// Canonical decimal rendering of `n` as bytes.
pub open spec fn dec_bytes(n: int) -> Seq<u8>
    decreases n,
{
    if n <= 0 {
        seq![digit_byte(0)]
    } else if n < 10 {
        seq![digit_byte(n)]
    } else {
        dec_bytes(n / 10).push(digit_byte(n % 10))
    }
}

/// Append the canonical decimal rendering of `n` to `out`.
pub fn append_dec_bytes(out: &mut Vec<u8>, n: u64)
    ensures
        final(out)@ == old(out)@ + dec_bytes(n as int),
    decreases n,
{
    if n < 10 {
        out.push(48 + n as u8);
        assert(final(out)@ =~= old(out)@ + dec_bytes(n as int));
    } else {
        append_dec_bytes(out, n / 10);
        out.push(48 + (n % 10) as u8);
        assert(final(out)@ =~= old(out)@ + dec_bytes(n as int));
    }
}

} // verus!

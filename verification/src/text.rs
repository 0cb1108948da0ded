//! Text helpers: decimal notation for integers and character access.

use vstd::prelude::*;
use vstd::arithmetic::div_mod::{lemma_add_mod_noop, lemma_mul_mod_noop_left};

verus! {

/// `String::push` appends the character to the end of the string and changes
/// nothing else.
pub assume_specification[ std::string::String::push ](s: &mut std::string::String, c: char)
    ensures
        final(s)@ == old(s)@.push(c),
;

/// The character that writes the decimal digit `d`.
pub open spec fn digit_char(d: nat) -> char {
    ((48 + d) as u8) as char
}

/// The decimal digit that `c` writes, if it writes one.
pub open spec fn digit_of(c: char) -> Option<nat> {
    if '0' <= c && c <= '9' {
        Some((c as u8 - 48) as nat)
    } else {
        None
    }
}

/// Decimal notation of a natural number, without leading zeros.
pub open spec fn decimal(n: nat) -> Seq<char>
    decreases n,
{
    if n < 10 {
        seq![digit_char(n)]
    } else {
        decimal(n / 10).push(digit_char(n % 10))
    }
}

/// Decimal notation of an integer: a minus sign before the digits of a
/// negative one.
pub open spec fn signed_decimal(i: int) -> Seq<char> {
    if i < 0 {
        seq!['-'] + decimal((-i) as nat)
    } else {
        decimal(i as nat)
    }
}

/// Every character is a decimal digit.
pub open spec fn is_digits(s: Seq<char>) -> bool {
    forall|i: int| 0 <= i < s.len() ==> digit_of(#[trigger] s[i]) is Some
}

/// The natural number that a sequence of decimal digits writes.
pub open spec fn decimal_value(s: Seq<char>) -> nat
    decreases s.len(),
{
    if s.len() == 0 {
        0
    } else {
        decimal_value(s.drop_last()) * 10 + match digit_of(s.last()) {
            Some(d) => d,
            None => 0,
        }
    }
}

/// Decimal notation is made of digits only, is not empty, and writes the
/// number it was made from.
pub proof fn lemma_decimal(n: nat)
    ensures
        decimal(n).len() >= 1,
        is_digits(decimal(n)),
        decimal_value(decimal(n)) == n,
        n >= 10 ==> decimal(n).len() >= 2,
        n >= 1 ==> decimal(n)[0] != '0',
    decreases n,
{
    if n < 10 {
        assert(digit_of(digit_char(n)) == Some(n));
        assert(decimal(n).drop_last() =~= Seq::<char>::empty());
        assert(decimal_value(decimal(n).drop_last()) == 0);
    } else {
        lemma_decimal(n / 10);
        let front = decimal(n / 10);
        let d = digit_char(n % 10);
        assert(digit_of(d) == Some(n % 10));
        assert(decimal(n).drop_last() =~= front);
        assert(decimal(n).last() == d);
        assert(decimal(n)[0] == front[0]);
        assert forall|i: int| 0 <= i < decimal(n).len() implies digit_of(
            #[trigger] decimal(n)[i],
        ) is Some by {
            if i < front.len() {
                assert(decimal(n)[i] == front[i]);
            }
        }
    }
}

/// Different numbers have different decimal notations.
pub proof fn lemma_decimal_injective(a: nat, b: nat)
    requires
        decimal(a) == decimal(b),
    ensures
        a == b,
{
    lemma_decimal(a);
    lemma_decimal(b);
}

/// Appends the decimal notation of `n` to `out`.
pub fn push_decimal(out: &mut String, n: u64)
    ensures
        final(out)@ == old(out)@ + decimal(n as nat),
    decreases n,
{
    if n >= 10 {
        push_decimal(out, n / 10);
    }
    let d: u8 = (n % 10) as u8;
    out.push((48u8 + d) as char);
    proof {
        let ghost pre = old(out)@;
        if n >= 10 {
            assert(out@ == (pre + decimal((n / 10) as nat)).push(digit_char((n % 10) as nat)));
            assert(out@ =~= pre + decimal(n as nat));
        } else {
            assert(out@ =~= pre + decimal(n as nat));
        }
    }
}

/// Decimal notation of an unsigned integer.
pub fn unsigned_to_string(n: u64) -> (s: String)
    ensures
        s@ == decimal(n as nat),
{
    let mut s = String::new();
    push_decimal(&mut s, n);
    assert(s@ =~= decimal(n as nat));
    s
}

/// Decimal notation of a signed integer.
pub fn signed_to_string(i: i64) -> (s: String)
    ensures
        s@ == signed_decimal(i as int),
{
    let mut s = String::new();
    if i < 0 {
        s.push('-');
        let m: u64 = if i == i64::MIN {
            9223372036854775808u64
        } else {
            (-i) as u64
        };
        push_decimal(&mut s, m);
        assert(s@ =~= signed_decimal(i as int));
    } else {
        push_decimal(&mut s, i as u64);
        assert(s@ =~= signed_decimal(i as int));
    }
    s
}

/// The character that writes the hexadecimal digit `d`.
pub open spec fn hex_char(d: nat) -> char {
    if d < 10 {
        ((48 + d) as u8) as char
    } else {
        ((87 + d) as u8) as char
    }
}

/// The sixteen hexadecimal digits of a 64-bit pattern, most significant
/// first.
pub open spec fn hex16(bits: u64) -> Seq<char> {
    Seq::new(16, |i: int| hex_char(((bits >> ((60 - 4 * i) as u64)) & 0xf) as nat))
}

/// Appends the sixteen hexadecimal digits of `bits` to `out`.
pub fn push_hex16(out: &mut String, bits: u64)
    ensures
        final(out)@ == old(out)@ + hex16(bits),
{
    let mut i: u64 = 0;
    while i < 16
        invariant
            i <= 16,
            out@ == old(out)@ + hex16(bits).take(i as int),
        decreases 16 - i,
    {
        let shift: u64 = 60 - 4 * i;
        let d: u64 = (bits >> shift) & 0xf;
        assert(d < 16) by (bit_vector)
            requires
                d == (bits >> shift) & 0xf,
        ;
        let c: char = if d < 10 {
            (48u8 + d as u8) as char
        } else {
            (87u8 + d as u8) as char
        };
        out.push(c);
        proof {
            assert(hex16(bits)[i as int] == c);
            assert(hex16(bits).take(i + 1) =~= hex16(bits).take(i as int).push(c));
            assert(out@ =~= old(out)@ + hex16(bits).take(i + 1));
        }
        i += 1;
    }
    assert(hex16(bits).take(16) =~= hex16(bits));
}

/// `decimal_value` of a sequence with one more digit.
pub proof fn lemma_decimal_value_push(s: Seq<char>, c: char)
    ensures
        decimal_value(s.push(c)) == decimal_value(s) * 10 + match digit_of(c) {
            Some(d) => d,
            None => 0,
        },
{
    assert(s.push(c).drop_last() =~= s);
}

/// Canonical decimal notation: digits only, at least one, and no leading
/// zero on a number of two or more digits.
pub open spec fn is_canonical(s: Seq<char>) -> bool {
    &&& s.len() >= 1
    &&& is_digits(s)
    &&& (s.len() > 1 ==> s[0] != '0')
}

/// A sequence of digits writes zero exactly when every digit is zero.
pub proof fn lemma_decimal_zero(s: Seq<char>)
    requires
        is_digits(s),
    ensures
        decimal_value(s) == 0 <==> (forall|i: int| 0 <= i < s.len() ==> s[i] == '0'),
    decreases s.len(),
{
    if s.len() > 0 {
        let front = s.drop_last();
        assert forall|i: int| 0 <= i < front.len() implies digit_of(#[trigger] front[i]) is Some by {
            assert(front[i] == s[i]);
        }
        lemma_decimal_zero(front);
        assert(digit_of(s.last()) is Some);
        if decimal_value(s) == 0 {
            assert(decimal_value(front) == 0);
            assert(digit_of(s.last()) == Some(0nat));
            assert(s.last() == '0');
            assert forall|i: int| 0 <= i < s.len() implies s[i] == '0' by {
                if i < front.len() {
                    assert(front[i] == s[i]);
                }
            }
        }
        if forall|i: int| 0 <= i < s.len() ==> s[i] == '0' {
            assert forall|i: int| 0 <= i < front.len() implies front[i] == '0' by {
                assert(front[i] == s[i]);
            }
            assert(s.last() == '0');
        }
    }
}

/// Canonical notation is the decimal notation of the number it writes.
pub proof fn lemma_canonical(s: Seq<char>)
    requires
        is_canonical(s),
    ensures
        decimal(decimal_value(s)) == s,
    decreases s.len(),
{
    let front = s.drop_last();
    assert(digit_of(s.last()) is Some);
    let d = digit_of(s.last())->0;
    assert(digit_char(d) == s.last());
    if s.len() == 1 {
        assert(front =~= Seq::<char>::empty());
        assert(decimal_value(front) == 0);
        assert(decimal(decimal_value(s)) =~= s);
    } else {
        assert forall|i: int| 0 <= i < front.len() implies digit_of(#[trigger] front[i]) is Some by {
            assert(front[i] == s[i]);
        }
        assert(front[0] == s[0]);
        lemma_canonical(front);
        lemma_decimal_zero(front);
        let n = decimal_value(s);
        assert(decimal_value(front) >= 1);
        assert(n >= 10 && n / 10 == decimal_value(front) && n % 10 == d) by (nonlinear_arith)
            requires
                n == decimal_value(front) * 10 + d,
                decimal_value(front) >= 1,
                d < 10,
        ;
        assert(decimal(n) =~= s);
    }
}

/// The integer that `s` writes as a decimal integer literal: an optional
/// sign, then one or more digits.
pub open spec fn integer_of_text(s: Seq<char>) -> Option<int> {
    if s.len() > 0 && (s[0] == '-' || s[0] == '+') {
        if s.len() > 1 && is_digits(s.skip(1)) {
            Some(
                if s[0] == '-' {
                    -(decimal_value(s.skip(1)) as int)
                } else {
                    decimal_value(s.skip(1)) as int
                },
            )
        } else {
            None
        }
    } else if s.len() > 0 && is_digits(s) {
        Some(decimal_value(s) as int)
    } else {
        None
    }
}

/// What the digits of `chars` from `start` on write, modulo 2^32; nothing
/// where there is no digit there or something that is not a digit.
pub fn digits_residue(chars: &Vec<char>, start: usize) -> (r: Option<u64>)
    requires
        start <= chars@.len(),
    ensures
        r is Some == (start < chars@.len() && is_digits(chars@.skip(start as int))),
        r matches Some(x) ==> x == decimal_value(chars@.skip(start as int)) % 0x1_0000_0000,
{
    let ghost digits = chars@.skip(start as int);
    if start >= chars.len() {
        return None;
    }
    let mut acc: u64 = 0;
    let mut i: usize = start;
    proof {
        assert(digits.take(0) =~= Seq::<char>::empty());
    }
    while i < chars.len()
        invariant
            start <= i <= chars@.len(),
            digits == chars@.skip(start as int),
            is_digits(digits.take(i - start)),
            acc == decimal_value(digits.take(i - start)) % 0x1_0000_0000,
        decreases chars.len() - i,
    {
        let c = chars[i];
        assert(digits[i - start] == c);
        if !('0' <= c && c <= '9') {
            assert(digit_of(digits[i - start]) is None);
            return None;
        }
        let d: u64 = (c as u8 - 48) as u64;
        proof {
            let prefix = digits.take(i - start);
            let a = decimal_value(prefix) as int;
            assert(digits.take(i - start + 1) =~= prefix.push(c));
            lemma_decimal_value_push(prefix, c);
            lemma_mul_mod_noop_left(a, 10, 0x1_0000_0000);
            lemma_add_mod_noop(a * 10, d as int, 0x1_0000_0000);
            lemma_add_mod_noop((a % 0x1_0000_0000) * 10, d as int, 0x1_0000_0000);
            assert forall|k: int| 0 <= k < digits.take(i - start + 1).len() implies digit_of(
                #[trigger] digits.take(i - start + 1)[k],
            ) is Some by {
                if k < i - start {
                    assert(digits.take(i - start + 1)[k] == prefix[k]);
                }
            }
        }
        acc = (acc * 10 + d) % 0x1_0000_0000;
        i += 1;
    }
    assert(digits.take(i - start) =~= digits);
    Some(acc)
}

/// The characters of a string slice, in order.
pub fn chars_of(s: &str) -> (v: Vec<char>)
    ensures
        v@ == s@,
{
    let mut v: Vec<char> = Vec::new();
    for c in it: s.chars()
        invariant
            v@ == s@.take(it.index() as int),
            it.seq() == s@,
    {
        v.push(c);
        assert(v@ =~= s@.take(it.index() + 1));
    }
    assert(v@ =~= s@);
    v
}

/// The string made of the given characters.
pub fn string_of(chars: &Vec<char>) -> (s: String)
    ensures
        s@ == chars@,
{
    let mut s = String::new();
    let mut i: usize = 0;
    while i < chars.len()
        invariant
            i <= chars.len(),
            s@ == chars@.take(i as int),
        decreases chars.len() - i,
    {
        s.push(chars[i]);
        i += 1;
        assert(s@ =~= chars@.take(i as int));
    }
    assert(s@ =~= chars@);
    s
}

} // verus!

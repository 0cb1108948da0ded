//! Arbitrary-precision integers as script values.
//!
//! A `BigInt` is held in canonical decimal notation, which is all that the
//! value layer reads of it: its sign, whether it is zero, its text, and the
//! 32-bit integer it converts to. Arithmetic on it is the host's.

use vstd::prelude::*;

use crate::builtins::number::{lemma_wrap32, wrap32, wrap_residue};
use crate::text::{
    decimal, decimal_value, digits_residue, is_canonical, is_digits, lemma_canonical, lemma_decimal,
    lemma_decimal_zero, signed_decimal, string_of,
};

verus! {

/// An arbitrary-precision integer.
pub struct BigInt {
    negative: bool,
    digits: Vec<char>,
}

impl View for BigInt {
    type V = int;

    closed spec fn view(&self) -> int {
        if self.negative {
            -(decimal_value(self.digits@) as int)
        } else {
            decimal_value(self.digits@) as int
        }
    }
}

impl BigInt {
    /// The digits are canonical decimal notation, and zero is not negative.
    #[verifier::type_invariant]
    closed spec fn valid(&self) -> bool {
        &&& is_canonical(self.digits@)
        &&& (self.negative ==> decimal_value(self.digits@) != 0)
    }

    /// The integer that a 64-bit integer is.
    pub fn from_i64(i: i64) -> (r: BigInt)
        ensures
            r@ == i,
    {
        let magnitude: u64 = if i == i64::MIN {
            0x8000_0000_0000_0000
        } else if i < 0 {
            (-i) as u64
        } else {
            i as u64
        };
        let text = crate::text::unsigned_to_string(magnitude);
        let digits = crate::text::chars_of(text.as_str());
        proof {
            lemma_decimal(magnitude as nat);
        }
        BigInt { negative: i < 0, digits }
    }

    /// The integer that `text` writes in decimal notation: an optional minus
    /// sign, then digits without a leading zero. There is none for any other
    /// text, and none for a negative zero.
    #[verifier::loop_isolation(false)]
    pub fn from_decimal(text: &str) -> (r: Option<BigInt>)
        ensures
            r is Some == canonical_integer(text@),
            r matches Some(b) ==> signed_decimal(b@) == text@,
    {
        let chars = crate::text::chars_of(text);
        let negative = chars.len() > 0 && chars[0] == '-';
        let start: usize = if negative {
            1
        } else {
            0
        };
        let mut digits: Vec<char> = Vec::new();
        let mut all_zero = true;
        let mut i: usize = start;
        while i < chars.len()
            invariant
                start <= i <= chars@.len(),
                digits@ == chars@.subrange(start as int, i as int),
                is_digits(digits@),
                all_zero == (forall|k: int| 0 <= k < digits@.len() ==> digits@[k] == '0'),
            decreases chars.len() - i,
        {
            let c = chars[i];
            if !('0' <= c && c <= '9') {
                proof {
                    assert(chars@.skip(start as int)[i - start] == c);
                    assert(crate::text::digit_of(c) is None);
                }
                return None;
            }
            let ghost before = digits@;
            digits.push(c);
            if c != '0' {
                all_zero = false;
                assert(digits@[digits@.len() - 1] != '0');
            }
            i += 1;
            proof {
                assert(digits@ =~= chars@.subrange(start as int, i as int));
                assert forall|k: int| 0 <= k < digits@.len() implies crate::text::digit_of(
                    #[trigger] digits@[k],
                ) is Some by {
                    if k < before.len() {
                        assert(digits@[k] == before[k]);
                    }
                }
                if all_zero {
                    assert forall|k: int| 0 <= k < digits@.len() implies digits@[k] == '0' by {
                        if k < before.len() {
                            assert(digits@[k] == before[k]);
                        }
                    }
                }
            }
        }
        proof {
            assert(digits@ =~= chars@.skip(start as int));
            assert(chars@.skip(0) =~= chars@);
            lemma_decimal_zero(digits@);
        }
        if digits.len() == 0 {
            return None;
        }
        if digits.len() > 1 && digits[0] == '0' {
            return None;
        }
        if negative && all_zero {
            return None;
        }
        proof {
            lemma_canonical(digits@);
            if negative {
                assert(text@ =~= seq!['-'] + digits@);
            } else {
                if digits@[0] == '-' {
                    assert(crate::text::digit_of(digits@[0]) is Some);
                }
            }
        }
        Some(BigInt { negative, digits })
    }

    /// Whether the integer is zero.
    pub fn is_zero(&self) -> (r: bool)
        ensures
            r == (self@ == 0),
    {
        proof {
            use_type_invariant(self);
            lemma_decimal_zero(self.digits@);
        }
        self.digits.len() == 1 && self.digits[0] == '0'
    }

    /// Whether the integer is below zero.
    pub fn is_negative(&self) -> (r: bool)
        ensures
            r == (self@ < 0),
    {
        proof {
            use_type_invariant(self);
        }
        self.negative
    }

    /// The integer in decimal notation.
    pub fn to_string(&self) -> (r: String)
        ensures
            r@ == signed_decimal(self@),
    {
        proof {
            use_type_invariant(self);
            lemma_canonical(self.digits@);
        }
        let digits = string_of(&self.digits);
        if self.negative {
            let mut s = String::new();
            s.push('-');
            s.append(digits.as_str());
            assert(s@ =~= signed_decimal(self@));
            s
        } else {
            digits
        }
    }

    /// The 32-bit integer with the same low 32 bits.
    pub fn to_int32(&self) -> (r: i32)
        ensures
            r == wrap32(self@),
    {
        proof {
            use_type_invariant(self);
            assert(self.digits@.skip(0) =~= self.digits@);
            lemma_wrap32(self.negative, decimal_value(self.digits@));
        }
        match digits_residue(&self.digits, 0) {
            Some(low) => wrap_residue(self.negative, low),
            None => 0,
        }
    }

    /// Whether two integers are equal.
    pub fn equals(&self, other: &BigInt) -> (r: bool)
        ensures
            r == (self@ == other@),
    {
        proof {
            use_type_invariant(self);
            use_type_invariant(other);
            lemma_canonical(self.digits@);
            lemma_canonical(other.digits@);
        }
        self.negative == other.negative && same_chars(&self.digits, &other.digits)
    }

    /// Whether the integer equals a 32-bit integer.
    pub fn equals_i32(&self, other: i32) -> (r: bool)
        ensures
            r == (self@ == other),
    {
        let that = BigInt::from_i64(other as i64);
        proof {
            use_type_invariant(self);
            use_type_invariant(&that);
            lemma_canonical(self.digits@);
            lemma_canonical(that.digits@);
        }
        self.negative == that.negative && same_chars(&self.digits, &that.digits)
    }

    /// The integer as a 32-bit integer, where it is one: the shift count of
    /// a shift by this integer.
    pub fn to_i32(&self) -> (r: Option<i32>)
        ensures
            r is Some == (i32::MIN <= self@ <= i32::MAX),
            r matches Some(i) ==> i == self@,
    {
        let low = self.to_int32();
        if self.equals_i32(low) {
            Some(low)
        } else {
            None
        }
    }

    /// The count of a right shift by this integer: the integer itself where
    /// a 32-bit integer can hold it, else the largest 32-bit integer.
    pub fn right_shift_count(&self) -> (r: i32)
        ensures
            r == if i32::MIN <= self@ <= i32::MAX {
                self@
            } else {
                i32::MAX as int
            },
    {
        match self.to_i32() {
            Some(n) => n,
            None => i32::MAX,
        }
    }
}

/// `text` writes an integer in canonical decimal notation: an optional minus
/// sign before canonical digits, and no negative zero.
pub open spec fn canonical_integer(text: Seq<char>) -> bool {
    if text.len() > 0 && text[0] == '-' {
        is_canonical(text.skip(1)) && decimal_value(text.skip(1)) != 0
    } else {
        is_canonical(text)
    }
}

/// Whether two vectors hold the same characters.
pub fn same_chars(a: &Vec<char>, b: &Vec<char>) -> (r: bool)
    ensures
        r == (a@ == b@),
{
    if a.len() != b.len() {
        return false;
    }
    let mut i: usize = 0;
    while i < a.len()
        invariant
            i <= a.len(),
            a.len() == b.len(),
            forall|k: int| 0 <= k < i ==> a@[k] == b@[k],
        decreases a.len() - i,
    {
        if a[i] != b[i] {
            return false;
        }
        i += 1;
    }
    assert(a@ =~= b@);
    true
}

impl Clone for BigInt {
    fn clone(&self) -> (r: Self)
        ensures
            r@ == self@,
    {
        proof {
            use_type_invariant(self);
        }
        let digits = self.digits.clone();
        assert(digits@ =~= self.digits@);
        BigInt { negative: self.negative, digits }
    }
}

} // verus!

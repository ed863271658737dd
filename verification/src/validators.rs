//! Common value validators, specified over the character sequences they
//! accept.

use vstd::prelude::*;
use vstd::string::StrSliceExecFns;
use vstd::string::StringExecFns;

use crate::catalog::Validator;
use crate::errors::ValidationError;

verus! {

/// Whether `c` is a base-ten digit.
pub open spec fn spec_is_digit(c: char) -> bool {
    48 <= c as int <= 57
}

/// The numeric value of a digit sequence read in base ten.
pub open spec fn spec_decimal_value(s: Seq<char>) -> int
    decreases s.len(),
{
    if s.len() == 0 {
        0
    } else {
        spec_decimal_value(s.drop_last()) * 10 + (s.last() as int - 48)
    }
}

/// The digit portion of a number literal: what follows an optional
/// leading `+`.
pub open spec fn spec_digits_of(s: Seq<char>) -> Seq<char> {
    if s.len() > 0 && s[0] == '+' {
        s.drop_first()
    } else {
        s
    }
}

/// Whether `s` is a base-ten literal of a 32-bit unsigned integer: an
/// optional leading `+`, then at least one digit, with a value of at most
/// `u32::MAX`.
pub open spec fn spec_is_u32_literal(s: Seq<char>) -> bool {
    let d = spec_digits_of(s);
    &&& d.len() > 0
    &&& forall|k: int| 0 <= k < d.len() ==> spec_is_digit(d[k])
    &&& spec_decimal_value(d) <= u32::MAX
}

/// The message reported for a rejected positive-integer candidate.
pub open spec fn spec_positive_integer_message(s: Seq<char>) -> Seq<char> {
    if !spec_is_u32_literal(s) {
        "Not a valid positive integer"@
    } else {
        "Value must be greater than zero"@
    }
}

proof fn lemma_decimal_value_nonneg(s: Seq<char>)
    requires
        forall|k: int| 0 <= k < s.len() ==> spec_is_digit(s[k]),
    ensures
        spec_decimal_value(s) >= 0,
    decreases s.len(),
{
    if s.len() > 0 {
        lemma_decimal_value_nonneg(s.drop_last());
    }
}

proof fn lemma_decimal_prefix_le(s: Seq<char>, i: int)
    requires
        0 <= i <= s.len(),
        forall|k: int| 0 <= k < s.len() ==> spec_is_digit(s[k]),
    ensures
        spec_decimal_value(s.subrange(0, i)) <= spec_decimal_value(s),
    decreases s.len() - i,
{
    if i == s.len() {
        assert(s.subrange(0, i) =~= s);
    } else {
        lemma_decimal_prefix_le(s, i + 1);
        let longer = s.subrange(0, i + 1);
        assert(longer.drop_last() =~= s.subrange(0, i));
        lemma_decimal_value_nonneg(s.subrange(0, i));
    }
}

/// Accepts exactly the base-ten literals of a positive 32-bit integer: an
/// optional leading `+`, then digits, with a value in `1..=u32::MAX`.
pub fn validate_positive_integer(value: &String) -> (r: Result<(), ValidationError>)
    ensures
        r is Ok <==> spec_is_u32_literal(value@) && spec_decimal_value(spec_digits_of(value@))
            > 0,
        r matches Err(e) ==> e@ == spec_positive_integer_message(value@),
{
    let s = value.as_str();
    let n = s.unicode_len();
    let start: usize = if n > 0 && s.get_char(0) == '+' {
        1
    } else {
        0
    };
    proof {
        if start == 1 {
            assert(spec_digits_of(value@) =~= value@.subrange(1, n as int));
        } else {
            assert(spec_digits_of(value@) =~= value@.subrange(0, n as int));
        }
    }
    let ghost digits = value@.subrange(start as int, n as int);
    if n == start {
        assert(digits.len() == 0);
        return Err(ValidationError::new(String::from_str("Not a valid positive integer")));
    }
    let mut acc: u64 = 0;
    let mut i = start;
    proof {
        assert(value@.subrange(start as int, start as int) =~= Seq::<char>::empty());
    }
    while i < n
        invariant
            start <= i <= n,
            n == value@.len(),
            s@ == value@,
            digits == value@.subrange(start as int, n as int),
            digits == spec_digits_of(value@),
            forall|k: int| start <= k < i ==> spec_is_digit(value@[k]),
            acc == spec_decimal_value(value@.subrange(start as int, i as int)),
            acc <= u32::MAX,
        decreases n - i,
    {
        let c = s.get_char(i);
        let cv = c as u32;
        if cv < 48 || cv > 57 {
            assert(!spec_is_digit(digits[i - start]));
            return Err(ValidationError::new(String::from_str("Not a valid positive integer")));
        }
        let d = (cv - 48) as u64;
        acc = acc * 10 + d;
        proof {
            let longer = value@.subrange(start as int, i + 1);
            assert(longer.drop_last() =~= value@.subrange(start as int, i as int));
            assert(longer.last() == value@[i as int]);
        }
        if acc > 0xFFFF_FFFF {
            proof {
                if forall|k: int| 0 <= k < digits.len() ==> spec_is_digit(digits[k]) {
                    let prefix_len = i + 1 - start;
                    assert(digits.subrange(0, prefix_len) =~= value@.subrange(
                        start as int,
                        i + 1,
                    ));
                    lemma_decimal_prefix_le(digits, prefix_len);
                }
            }
            return Err(ValidationError::new(String::from_str("Not a valid positive integer")));
        }
        i += 1;
    }
    proof {
        assert(digits =~= value@.subrange(start as int, n as int));
    }
    if acc == 0 {
        return Err(ValidationError::new(String::from_str("Value must be greater than zero")));
    }
    Ok(())
}

/// The validator form of [`validate_positive_integer`].
pub struct PositiveIntegerValidator;

impl Validator for PositiveIntegerValidator {
    open spec fn accepts(&self, value: Seq<char>) -> bool {
        spec_is_u32_literal(value) && spec_decimal_value(spec_digits_of(value)) > 0
    }

    open spec fn failure_message(&self, value: Seq<char>) -> Seq<char> {
        spec_positive_integer_message(value)
    }

    fn validate(&self, value: &String) -> (r: Result<(), ValidationError>) {
        validate_positive_integer(value)
    }
}

} // verus!

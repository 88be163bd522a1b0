use vstd::prelude::*;

verus! {

/// A decimal digit `0` to `9`.
pub open spec fn is_digit(c: char) -> bool {
    '0' <= c && c <= '9'
}

/// The numeric value of a decimal digit.
pub open spec fn digit_value(c: char) -> nat {
    (c as nat - '0' as nat) as nat
}

/// An integer literal as the field backend reads it: a non-empty run of decimal
/// digits with no leading zero, or the single digit `0`.
pub open spec fn is_literal(s: Seq<char>) -> bool {
    &&& s.len() > 0
    &&& forall|i: int| 0 <= i < s.len() ==> #[trigger] is_digit(s[i])
    &&& (s[0] == '0' ==> s.len() == 1)
}

/// The natural number that a run of decimal digits denotes.
pub open spec fn literal_value(s: Seq<char>) -> nat
    decreases s.len(),
{
    if s.len() == 0 {
        0
    } else {
        literal_value(s.drop_last()) * 10 + digit_value(s.last())
    }
}

/// Why a text is not an integer literal.
#[derive(Clone, Copy, Debug, PartialEq, Eq, Structural)]
pub enum LiteralFault {
    /// The text is empty.
    Empty,
    /// The character at this position is not a decimal digit.
    NotADigit(usize),
    /// A number of two or more digits starts with `0`.
    LeadingZero,
}

/// The fault that `check_literal` reports, if any: emptiness first, then the
/// first character that is not a digit, then a leading zero.
pub open spec fn literal_fault(s: Seq<char>) -> Option<LiteralFault> {
    if s.len() == 0 {
        Some(LiteralFault::Empty)
    } else if exists|i: int| 0 <= i < s.len() && !is_digit(#[trigger] s[i]) {
        let i = choose|i: int|
            0 <= i < s.len() && !is_digit(#[trigger] s[i]) && forall|j: int|
                0 <= j < i ==> is_digit(#[trigger] s[j]);
        Some(LiteralFault::NotADigit(i as usize))
    } else if s[0] == '0' && s.len() > 1 {
        Some(LiteralFault::LeadingZero)
    } else {
        None
    }
}

/// Checks that `s` is an integer literal, and says why not where it is not.
pub fn check_literal(s: &str) -> (r: Result<(), LiteralFault>)
    ensures
        r is Ok <==> is_literal(s@),
        r is Ok <==> literal_fault(s@) is None,
        r is Err ==> r == Err::<(), LiteralFault>(literal_fault(s@).unwrap()),
{
    let n = s.unicode_len();
    if n == 0 {
        return Err(LiteralFault::Empty);
    }
    let mut i: usize = 0;
    while i < n
        invariant
            n == s@.len(),
            i <= n,
            forall|j: int| 0 <= j < i ==> #[trigger] is_digit(s@[j]),
        decreases n - i,
    {
        let c = s.get_char(i);
        if !('0' <= c && c <= '9') {
            proof {
                let w = choose|k: int|
                    0 <= k < s@.len() && !is_digit(#[trigger] s@[k]) && forall|j: int|
                        0 <= j < k ==> is_digit(#[trigger] s@[j]);
                assert(0 <= w < s@.len() && !is_digit(s@[w]) && forall|j: int|
                        0 <= j < w ==> is_digit(#[trigger] s@[j])) by {
                    assert(!is_digit(s@[i as int]));
                }
                if w < i {
                    assert(is_digit(s@[w]));
                } else if w > i {
                    assert(is_digit(s@[i as int]));
                }
            }
            return Err(LiteralFault::NotADigit(i));
        }
        i = i + 1;
    }
    if n > 1 && s.get_char(0) == '0' {
        return Err(LiteralFault::LeadingZero);
    }
    Ok(())
}

} // verus!

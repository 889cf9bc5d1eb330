//! Numeric literal values, held exactly as decimal numerals.

use vstd::prelude::*;
use crate::chars::{digits, is_digit, lemma_run_end, run_end, skip_while};
use crate::text::chars_of;

verus! {

/// The grammar of a numeric literal: one or more digits, optionally followed
/// by a point and one or more digits. No sign, no exponent.
pub open spec fn is_decimal(s: Seq<char>) -> bool {
    let whole = run_end(s, 0, digits());
    &&& 0 < whole
    &&& whole == s.len() || {
        &&& s[whole] == '.'
        &&& whole + 1 < s.len()
        &&& run_end(s, whole + 1, digits()) == s.len()
    }
}

/// A numeral holds nothing but digits and points, and it starts and ends
/// with a digit.
pub proof fn lemma_decimal_chars(s: Seq<char>)
    requires
        is_decimal(s),
    ensures
        s.len() > 0,
        forall|i: int| 0 <= i < s.len() ==> is_digit(#[trigger] s[i]) || s[i] == '.',
        is_digit(s[0]),
        is_digit(s[s.len() - 1]),
{
    let whole = run_end(s, 0, digits());
    lemma_run_end(s, 0, digits());
    if whole < s.len() {
        lemma_run_end(s, whole + 1, digits());
    }
}

/// A non-negative decimal number with finitely many digits, kept as the
/// numeral that denotes it.
#[derive(Debug, PartialEq, Eq)]
pub struct Decimal {
    text: String,
}

impl View for Decimal {
    type V = Seq<char>;

    /// The numeral.
    closed spec fn view(&self) -> Seq<char> {
        self.text@
    }
}

impl Clone for Decimal {
    fn clone(&self) -> (copy: Self)
        ensures
            copy@ == self@,
    {
        proof {
            use_type_invariant(self);
        }
        Decimal { text: self.text.clone() }
    }
}

impl Decimal {
    #[verifier::type_invariant]
    spec fn well_formed(&self) -> bool {
        is_decimal(self.text@)
    }

    /// Reads a numeral. Succeeds exactly on the texts that `is_decimal`
    /// admits, and then keeps the text as it is.
    pub fn parse(text: &str) -> (parsed: Option<Decimal>)
        ensures
            parsed is Some <==> is_decimal(text@),
            parsed matches Some(d) ==> d@ == text@,
    {
        let chars = chars_of(text);
        let n = chars.len();
        let whole = skip_while(&chars, 0, is_digit, Ghost(digits()));
        if whole == 0 {
            return None;
        }
        if whole < n {
            if chars[whole] != '.' {
                return None;
            }
            let end = skip_while(&chars, whole + 1, is_digit, Ghost(digits()));
            if whole + 1 >= n || end != n {
                return None;
            }
        }
        Some(Decimal { text: text.to_owned() })
    }

    /// The numeral as text; it is always well formed.
    pub fn to_string(&self) -> (text: String)
        ensures
            text@ == self@,
            is_decimal(text@),
    {
        proof {
            use_type_invariant(self);
        }
        self.text.clone()
    }
}

} // verus!

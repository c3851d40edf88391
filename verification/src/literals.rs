//! Integer literals, read by `syn`.
use vstd::prelude::*;

verus! {

/// The digits of `s`, read as a decimal number.
pub open spec fn decimal(s: Seq<char>) -> nat
    decreases s.len(),
{
    if s.len() == 0 {
        0
    } else {
        decimal(s.drop_last()) * 10 + ((s.last() as u32 - '0' as u32) as nat)
    }
}

/// Decimal digits and nothing else.
pub open spec fn all_digits(s: Seq<char>) -> bool {
    s.len() > 0 && forall|i: int| 0 <= i < s.len() ==> '0' <= #[trigger] s[i] && s[i] <= '9'
}

/// What `syn::LitInt::base10_parse::<u64>` makes of an integer literal that is not
/// written with decimal digits alone.
pub uninterp spec fn int_literal(text: Seq<char>) -> Option<u64>;

/// The value of an integer literal, if `text` is one and the value fits.
pub open spec fn int_of(text: Seq<char>) -> Option<u64> {
    if !all_digits(text) {
        int_literal(text)
    } else if decimal(text) <= u64::MAX {
        Some(decimal(text) as u64)
    } else {
        None
    }
}

/// `syn::parse_str` into a `syn::LitInt`, then `syn::LitInt::base10_parse` into a
/// `u64`: decimal digits alone have their decimal value, if it fits. What
/// prefixes, underscores and suffixes mean, and what is no literal at all, is left
/// to `int_literal`.
#[verifier::external_body]
pub(crate) fn int_value(text: &str) -> (r: Option<u64>)
    ensures
        r == int_of(text@),
        !all_digits(text@) ==> r == int_literal(text@),
{
    let literal = syn::parse_str::<syn::LitInt>(text).ok()?;
    literal.base10_parse::<u64>().ok()
}

} // verus!

//! Wide (UTF-16 code unit) strings as the remote store reports them.
use vstd::prelude::*;

use widestring::U16CString;

verus! {

/// The code units of `s` before its first nul unit (all of `s` when it holds none).
pub open spec fn before_nul(s: Seq<u16>) -> Seq<u16>
    decreases s.len(),
{
    if s.len() == 0 {
        s
    } else if s[0] == 0u16 {
        Seq::empty()
    } else {
        seq![s[0]] + before_nul(s.drop_first())
    }
}

/// Relies on widestring's `U16CString::from_vec_truncate`, which cuts the
/// vector at its first nul, and `U16CString::into_vec`, which hands the units
/// back without the terminating nul.
#[verifier::external_body]
pub(crate) fn truncate_at_nul(units: Vec<u16>) -> (r: Vec<u16>)
    ensures
        r@ == before_nul(units@),
{
    U16CString::from_vec_truncate(units).into_vec()
}

/// An object identifier as reported in a property: its units up to the first nul.
pub fn identifier_from_property(units: Vec<u16>) -> (r: Vec<u16>)
    ensures
        r@ == before_nul(units@),
{
    truncate_at_nul(units)
}

} // verus!

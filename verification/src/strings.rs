//! Small string helpers shared by the modules.

use vstd::prelude::*;

verus! {

/// Exact equality of two string slices.
pub fn str_eq(a: &str, b: &str) -> (r: bool)
    ensures
        r == (a@ == b@),
{
    let a_owned: String = a.to_owned();
    let b_owned: String = b.to_owned();
    a_owned == b_owned
}

/// The view of an optional string slice.
pub open spec fn opt_str_view(o: Option<&str>) -> Option<Seq<char>> {
    match o {
        Some(s) => Some(s@),
        None => None,
    }
}

/// The view of an optional owned string.
pub open spec fn opt_string_view(o: Option<String>) -> Option<Seq<char>> {
    match o {
        Some(s) => Some(s@),
        None => None,
    }
}

/// Equality of an optional owned string with an optional string slice.
pub fn opt_string_eq_str(a: &Option<String>, b: Option<&str>) -> (r: bool)
    ensures
        r == (opt_string_view(*a) == opt_str_view(b)),
{
    match (a, b) {
        (Some(x), Some(y)) => str_eq(x.as_str(), y),
        (None, None) => true,
        _ => false,
    }
}

} // verus!

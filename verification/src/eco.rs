//! Trusted interface to the `ecow` crate's compact string type, which the
//! authoring-facing polygon representation is built on. The characters an
//! `EcoString` holds are named by [`eco_chars`]; each wrapper states what
//! the called `ecow` method does to them, as its source shows.

use vstd::prelude::*;

verus! {

#[verifier::external_type_specification]
#[verifier::external_body]
pub struct ExEcoString(ecow::EcoString);

/// The characters an `ecow::EcoString` holds, in order.
pub uninterp spec fn eco_chars(s: ecow::EcoString) -> Seq<char>;

/// Relies on `EcoString::new`: a new, empty string.
#[verifier::external_body]
pub fn eco_new() -> (r: ecow::EcoString)
    ensures
        eco_chars(r) == Seq::<char>::empty(),
{
    ecow::EcoString::new()
}

/// Relies on `From<&str> for EcoString`: an instance with the slice's
/// characters.
#[verifier::external_body]
pub fn eco_from_str(s: &str) -> (r: ecow::EcoString)
    ensures
        eco_chars(r) == s@,
{
    ecow::EcoString::from(s)
}

/// Relies on `EcoString::push_str`: appends the slice's characters.
#[verifier::external_body]
pub fn eco_push_str(e: &mut ecow::EcoString, s: &str)
    ensures
        eco_chars(*final(e)) == eco_chars(*old(e)) + s@,
{
    e.push_str(s)
}

/// Relies on `EcoString::as_str`: a slice of the entire string.
#[verifier::external_body]
pub fn eco_as_str(e: &ecow::EcoString) -> (r: &str)
    ensures
        r@ == eco_chars(*e),
{
    e.as_str()
}

} // verus!

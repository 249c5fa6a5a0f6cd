//! Stable identities computed by the Fission crates: widget ids and action ids,
//! both carried as their raw 128-bit values.
use vstd::prelude::*;

verus! {

/// The raw value of `fission_ir::WidgetId::explicit(key)`: a BLAKE3 hash of
/// the key in the explicit-identity domain, truncated to 128 bits.
pub uninterp spec fn explicit_widget_id_value(key: Seq<char>) -> u128;

/// The raw value of `fission_core::ActionId::from_name(name)`: a BLAKE3 hash
/// of the name, truncated to 128 bits.
pub uninterp spec fn action_id_value(name: Seq<char>) -> u128;

/// Calls `fission_ir::WidgetId::explicit` and returns the id's raw value.
/// The contract claims only that the result depends on the key alone.
#[verifier::external_body]
pub(crate) fn explicit_widget_id(key: &str) -> (id: u128)
    ensures
        id == explicit_widget_id_value(key@),
{
    fission_ir::WidgetId::explicit(key).as_u128()
}

/// Calls `fission_core::ActionId::from_name` and returns the id's raw value.
/// The contract claims only that the result depends on the name alone.
#[verifier::external_body]
pub(crate) fn action_id_from_name(name: &str) -> (id: u128)
    ensures
        id == action_id_value(name@),
{
    fission_core::ActionId::from_name(name).as_u128()
}

} // verus!

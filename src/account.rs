use vstd::prelude::*;

verus! {

/// Account identifiers of the hosting ledger, carried through the registry
/// as opaque values.
#[verifier::external_type_specification]
#[verifier::external_body]
pub struct ExAccountId(near_sdk::AccountId);

/// Relies on the derived `Clone` of `near_account_id::AccountId`, a newtype
/// over `Box<str>`: the copy equals the value it was taken from.
pub assume_specification[ <near_sdk::AccountId as Clone>::clone ](a: &near_sdk::AccountId) -> (r: near_sdk::AccountId)
    ensures
        r == *a,
;

} // verus!

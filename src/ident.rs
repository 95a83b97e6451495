//! Stable identifiers derived from names, for use as manual-section identifiers.
use vstd::prelude::*;
use crate::merge::id_char;

verus! {

/// The version-5 (SHA-1, name-based) UUID of a name under the ISO OID namespace, in its
/// hyphenated lower-case form.
pub uninterp spec fn oid_uuid_of(name: Seq<char>) -> Seq<char>;

/// Relies on `uuid::Uuid::new_v5` with `Uuid::NAMESPACE_OID` over the name's UTF-8
/// bytes, and on `Hyphenated`'s `Display`: 36 characters of lower-case hex digits and
/// hyphens.
#[verifier::external_body]
fn oid_uuid(name: &str) -> (r: String)
    ensures
        r@ == oid_uuid_of(name@),
        r@.len() == 36,
        forall|k: int| 0 <= k < r@.len() ==> id_char(#[trigger] r@[k]),
{
    uuid::Uuid::new_v5(&uuid::Uuid::NAMESPACE_OID, name.as_bytes()).hyphenated().to_string()
}

/// A reproducible identifier for `name`, fit to mark a manual section.
pub fn section_id(name: &str) -> (r: String)
    ensures
        r@ == oid_uuid_of(name@),
        r@.len() == 36,
        forall|k: int| 0 <= k < r@.len() ==> id_char(#[trigger] r@[k]),
{
    oid_uuid(name)
}

} // verus!

//! The calls into `serde_json`, `uuid` and `std::time` whose contracts are taken on trust.

use std::time::Duration;

use serde_json::Value;
use vstd::prelude::*;

verus! {

/// A JSON value of `serde_json`. The dispatcher carries request parameters and
/// responses through without looking inside them.
#[verifier::external_type_specification]
#[verifier::external_body]
pub struct ExValue(serde_json::Value);

/// `serde_json::Value::clone` copies the JSON tree: the copy is the same JSON value.
pub assume_specification[ <Value as Clone>::clone ](value: &Value) -> (copy: Value)
    ensures
        copy == *value,
;

/// The length of a duration in nanoseconds, as `Duration::as_nanos` reports it.
pub uninterp spec fn duration_nanos(duration: Duration) -> nat;

/// `Duration::as_nanos` gives the total number of nanoseconds in the duration.
pub assume_specification[ Duration::as_nanos ](duration: &Duration) -> (nanos: u128)
    ensures
        nanos == duration_nanos(*duration),
;

/// `Duration::from_secs` makes a duration of exactly that many whole seconds.
pub assume_specification[ Duration::from_secs ](secs: u64) -> (duration: Duration)
    ensures
        duration_nanos(duration) == secs * 1_000_000_000,
;

/// A lower-case hexadecimal digit.
pub open spec fn is_lower_hex(c: char) -> bool {
    ('0' <= c && c <= '9') || ('a' <= c && c <= 'f')
}

/// The text of a random (version 4) UUID without hyphens: 32 lower-case
/// hexadecimal digits, of which one holds the version and one the variant.
pub open spec fn is_request_id(id: Seq<char>) -> bool {
    &&& id.len() == 32
    &&& forall|i: int| 0 <= i < 32 ==> is_lower_hex(#[trigger] id[i])
    &&& id[12] == '4'
    &&& id[16] == '8' || id[16] == '9' || id[16] == 'a' || id[16] == 'b'
}

/// `uuid::Uuid::new_v4`, written out by `Uuid::simple`. The digits are random, so
/// only their form is claimed; that two identifiers differ is overwhelmingly
/// likely, not certain, and is not claimed. `new_v4` panics where the operating
/// system cannot supply random bytes.
#[verifier::external_body]
pub(crate) fn fresh_request_id() -> (id: String)
    ensures
        is_request_id(id@),
{
    uuid::Uuid::new_v4().simple().to_string()
}

} // verus!

//! Values that only the outside world can give: a new identifier and the
//! current time.

use vstd::prelude::*;
use crate::model::Timestamp;

verus! {

/// The length of an identifier in its hyphenated text form.
pub const ID_LENGTH: usize = 36;

/// No key of the map has the length of a generated identifier, so that no
/// generated identifier can be one of its keys.
pub open spec fn holds_no_generated_id<V>(m: Map<Seq<char>, V>) -> bool {
    forall|k: Seq<char>| #[trigger] m.contains_key(k) ==> k.len() != ID_LENGTH
}

/// A new random identifier in text form. Calls `uuid::Uuid::new_v4` and
/// formats the result, which `uuid` writes in the hyphenated form of 36
/// characters. Which identifier comes back is not known.
#[verifier::external_body]
pub fn generate_id() -> (id: String)
    ensures
        id@.len() == ID_LENGTH,
{
    uuid::Uuid::new_v4().to_string()
}

/// The current time. Calls `std::time::SystemTime::now` and hands the
/// result over as seconds and nanoseconds since the Unix epoch (the epoch
/// itself for a clock set before it); the nanoseconds stay below one
/// second.
#[verifier::external_body]
pub(crate) fn default_created_at() -> (now: Timestamp)
    ensures
        now.nanos_since_epoch < 1_000_000_000,
{
    let since = std::time::SystemTime::now().duration_since(
        std::time::UNIX_EPOCH,
    ).unwrap_or_default();
    Timestamp { secs_since_epoch: since.as_secs(), nanos_since_epoch: since.subsec_nanos() }
}

} // verus!

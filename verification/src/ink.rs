//! What the library takes from `ink_env`, behind a contract that Verus takes
//! on trust.

use vstd::prelude::*;

verus! {

/// `MAX_EVENT_TOPICS` of `ink_env::DefaultEnvironment`, which that crate sets
/// to four.
#[verifier::external_body]
pub(crate) fn default_max_event_topics() -> (n: usize)
    ensures
        n == 4,
{
    <ink_env::DefaultEnvironment as ink_env::Environment>::MAX_EVENT_TOPICS
}

} // verus!

//! The per-tick enforcement decision: given what the sampler reported,
//! either leave the foreground application alone or hand its identity to
//! the terminator.

use vstd::prelude::*;
use crate::allowlist::AllowList;
use crate::identity::SampleError;

verus! {

/// What one tick decides. `Terminate` means the terminator is invoked with
/// the sampled identity; `NoTermination` means the tick takes no action.
#[derive(Clone, Copy, Debug, PartialEq, Eq, Structural)]
pub enum Decision {
    NoTermination,
    Terminate,
}

/// The decision for a resolved identity: termination exactly when the
/// identity is not a member of the allow-list.
pub open spec fn spec_enforce(al: AllowList, id: Seq<char>) -> Decision {
    if al.contains_id(id) {
        Decision::NoTermination
    } else {
        Decision::Terminate
    }
}

/// Allow-list membership is exact: an identity is left alone if and only
/// if it is a member of the allow-list, and terminated if and only if it
/// is not.
pub proof fn lemma_membership_exact(al: AllowList, id: Seq<char>)
    ensures
        spec_enforce(al, id) == Decision::NoTermination <==> al.contains_id(id),
        spec_enforce(al, id) == Decision::Terminate <==> !al.contains_id(id),
{
}

/// Decides one resolved identity, as `spec_enforce` describes.
pub fn enforce(al: &AllowList, identity: &str) -> (d: Decision)
    ensures
        d == spec_enforce(*al, identity@),
{
    if al.contains_identity(identity) {
        Decision::NoTermination
    } else {
        Decision::Terminate
    }
}

/// Decides one tick from the sampler's report: a failed sample is "no
/// actionable identity this tick" and never leads to termination; a
/// resolved identity is terminated exactly when it is not allow-listed.
pub fn tick_action(al: &AllowList, sample: &Result<String, SampleError>) -> (d: Decision)
    ensures
        sample matches Ok(id) ==> d == spec_enforce(*al, id@),
        sample is Err ==> d == Decision::NoTermination,
        d == Decision::Terminate <==> (sample matches Ok(id) && !al.contains_id(id@)),
{
    match sample {
        Ok(id) => enforce(al, id.as_str()),
        Err(_) => Decision::NoTermination,
    }
}

} // verus!

//! Resolving a raw process descriptor to the canonical identity that the
//! allow-list is compared against, and the failures a sampling attempt can
//! end in.

use vstd::prelude::*;
use crate::digits::{all_digits, digits_val, parse_u32_digits};
use crate::text::{contains_at, contains_seq, contains_substr, spec_trim, trim};

verus! {

/// Why one sampling attempt produced no identity. All of these are
/// non-fatal: the enforcement loop skips the tick and carries on.
#[derive(Clone, Copy, Debug, PartialEq, Eq, Structural)]
pub enum SampleError {
    /// No process reports itself frontmost.
    NoFrontmostProcess,
    /// The frontmost process's descriptor cannot be turned into a usable
    /// identity string.
    UnresolvableIdentity,
    /// The platform query itself failed or returned malformed output.
    QueryFailed,
}

/// The marker by which the known Electron-shell host process is recognised
/// in a command line.
pub open spec fn marker() -> Seq<char> {
    "Code"@
}

/// The friendly name that a command line carrying the marker is mapped to.
pub open spec fn friendly_name() -> Seq<char> {
    "VS Code"@
}

/// The canonical identity of a command line: a command line that contains
/// the Electron-shell marker stands for the editor's friendly name; any
/// other command line is its own canonical identity.
pub open spec fn spec_canonicalize(s: Seq<char>) -> Seq<char> {
    if contains_seq(s, marker()) {
        friendly_name()
    } else {
        s
    }
}

/// The friendly name itself carries the marker, so it canonicalizes to
/// itself.
proof fn lemma_friendly_name_contains_marker()
    ensures
        contains_seq(friendly_name(), marker()),
{
    reveal_strlit("VS Code");
    reveal_strlit("Code");
    assert(friendly_name().subrange(3, 7) =~= marker());
    assert(contains_at(friendly_name(), marker(), 3));
}

/// Canonicalization is idempotent: canonicalizing an already-canonical
/// identity yields the same identity unchanged.
pub proof fn lemma_canonicalize_idempotent(s: Seq<char>)
    ensures
        spec_canonicalize(spec_canonicalize(s)) == spec_canonicalize(s),
{
    if contains_seq(s, marker()) {
        lemma_friendly_name_contains_marker();
    }
}

/// A non-empty command line has a non-empty canonical identity.
pub proof fn lemma_canonicalize_nonempty(s: Seq<char>)
    requires
        s.len() > 0,
    ensures
        spec_canonicalize(s).len() > 0,
{
    if contains_seq(s, marker()) {
        reveal_strlit("VS Code");
    }
}

/// Maps a raw command line to its canonical identity, as
/// `spec_canonicalize` describes.
pub fn canonicalize(raw: &str) -> (r: String)
    ensures
        r@ == spec_canonicalize(raw@),
{
    if contains_substr(raw, "Code") {
        "VS Code".to_owned()
    } else {
        raw.to_owned()
    }
}

/// Resolves the raw command-line output reported for the frontmost process
/// into a canonical identity: the surrounding whitespace is stripped, an
/// empty remainder means the descriptor was unusable, and anything else is
/// canonicalized. A resolved identity is never empty.
pub fn resolve_identity(raw: &str) -> (r: Result<String, SampleError>)
    ensures
        r is Ok <==> spec_trim(raw@).len() > 0,
        r matches Ok(id) ==> id@ == spec_canonicalize(spec_trim(raw@)) && id@.len() > 0,
        r == Err::<String, SampleError>(SampleError::UnresolvableIdentity) <==> spec_trim(
            raw@,
        ).len() == 0,
{
    let t = trim(raw);
    if t.unicode_len() == 0 {
        Err(SampleError::UnresolvableIdentity)
    } else {
        proof {
            lemma_canonicalize_nonempty(t@);
        }
        Ok(canonicalize(t))
    }
}

/// Parses the raw output of the frontmost-process query into a process
/// identifier: empty output means no process is frontmost; output that is
/// not a decimal numeral fitting a `u32` is malformed and reported as a
/// failed query.
pub fn parse_frontmost_pid(raw: &str) -> (r: Result<u32, SampleError>)
    ensures
        r is Ok <==> (spec_trim(raw@).len() > 0 && all_digits(spec_trim(raw@)) && digits_val(
            spec_trim(raw@),
        ) <= u32::MAX),
        r matches Ok(p) ==> p == digits_val(spec_trim(raw@)),
        r == Err::<u32, SampleError>(SampleError::NoFrontmostProcess) <==> spec_trim(raw@).len()
            == 0,
        r == Err::<u32, SampleError>(SampleError::QueryFailed) <==> (spec_trim(raw@).len() > 0 && !(
        all_digits(spec_trim(raw@)) && digits_val(spec_trim(raw@)) <= u32::MAX)),
{
    let t = trim(raw);
    if t.unicode_len() == 0 {
        return Err(SampleError::NoFrontmostProcess);
    }
    match parse_u32_digits(t) {
        Some(p) => Ok(p),
        None => Err(SampleError::QueryFailed),
    }
}

} // verus!

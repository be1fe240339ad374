//! The allow-list: the set of canonical identities permitted to hold focus
//! during a session. Fixed before the enforcement loop starts and read-only
//! afterwards; membership is exact, case-sensitive string equality.

use vstd::prelude::*;
use crate::text::str_eq;

verus! {

/// The identities permitted to hold the foreground. A session with an
/// empty allow-list is degenerate but legal: every sampled identity is
/// then disallowed, so callers should validate non-emptiness themselves.
pub struct AllowList {
    names: Vec<String>,
}

impl AllowList {
    /// The allow-list as a sequence of identity strings.
    pub closed spec fn view(self) -> Seq<Seq<char>> {
        self.names@.map_values(|n: String| n@)
    }

    /// Exact membership of `id`, after canonicalization.
    pub open spec fn contains_id(self, id: Seq<char>) -> bool {
        exists|k: int| 0 <= k < self.view().len() && self.view()[k] == id
    }

    /// Builds the allow-list that holds exactly the given names.
    pub fn new(names: Vec<String>) -> (al: AllowList)
        ensures
            al.view() == names@.map_values(|n: String| n@),
            al.view().len() == names@.len(),
    {
        AllowList { names }
    }

    /// How many identities the allow-list holds.
    pub fn len(&self) -> (n: usize)
        ensures
            n == self.view().len(),
    {
        self.names.len()
    }

    /// The identity at position `k`, exposed for display surfaces that
    /// list the permitted applications.
    pub fn name_at(&self, k: usize) -> (name: &String)
        requires
            k < self.view().len(),
        ensures
            name@ == self.view()[k as int],
    {
        &self.names[k]
    }

    /// Whether `id` is a member of the allow-list: true exactly when some
    /// entry equals `id`, character for character.
    pub fn contains_identity(&self, id: &str) -> (r: bool)
        ensures
            r == self.contains_id(id@),
    {
        let n = self.names.len();
        let mut k: usize = 0;
        while k < n
            invariant
                0 <= k <= n,
                n == self.names@.len(),
                n == self.view().len(),
                forall|m: int| 0 <= m < k ==> self.view()[m] != id@,
            decreases n - k,
        {
            if str_eq(self.names[k].as_str(), id) {
                assert(self.view()[k as int] == id@);
                return true;
            }
            k = k + 1;
        }
        false
    }
}

} // verus!

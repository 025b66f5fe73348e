//! The artifact store: uniquely numbered temporary file paths for
//! submitted code and derived data. The store decides names; the host
//! program does the actual writing and deleting.

use vstd::prelude::*;

use crate::numbers::dec_str;

verus! {

/// The path of the artifact numbered `id` with extension `ext` under the
/// directory `dir`: `{dir}/{id}.{ext}`.
pub open spec fn spec_artifact_path(dir: Seq<char>, id: nat, ext: Seq<char>) -> Seq<char> {
    dir + "/"@ + dec_str(id) + "."@ + ext
}

/// Hands out uniquely numbered artifact paths under one directory.
///
/// The store owns a monotonically increasing counter: an identifier is
/// never handed out twice during the store's lifetime, so two allocations
/// never name the same file.
pub struct ArtifactStore {
    dir: String,
    next_id: u64,
}

impl ArtifactStore {
    /// The directory all artifacts live under.
    pub closed spec fn dir(&self) -> Seq<char> {
        self.dir@
    }

    /// The identifier the next allocation will use.
    pub closed spec fn next_id(&self) -> nat {
        self.next_id as nat
    }

    /// A fresh store over `dir`, counting from zero.
    pub fn new(dir: String) -> (s: ArtifactStore)
        ensures
            s.dir() == dir@,
            s.next_id() == 0,
    {
        ArtifactStore { dir, next_id: 0 }
    }

    /// Whether another identifier can still be handed out. The counter
    /// must not wrap within one process lifetime: a wrapped counter would
    /// reuse identifiers.
    pub fn can_allocate(&self) -> (r: bool)
        ensures
            r == (self.next_id() < u64::MAX),
    {
        self.next_id < u64::MAX
    }

    /// Allocates the next artifact path: a fresh identifier, never handed
    /// out before, joined with the store's directory and the extension.
    pub fn allocate(&mut self, ext: &str) -> (path: String)
        requires
            old(self).next_id() < u64::MAX,
        ensures
            final(self).dir() == old(self).dir(),
            final(self).next_id() == old(self).next_id() + 1,
            path@ == spec_artifact_path(old(self).dir(), old(self).next_id(), ext@),
    {
        let id = self.next_id;
        self.next_id = self.next_id + 1;
        let mut p = self.dir.clone();
        p.append("/");
        let num = crate::numbers::u64_to_string(id);
        p.append(num.as_str());
        p.append(".");
        p.append(ext);
        p
    }
}

/// Law: identifiers are never reused, and two artifacts with distinct
/// identifiers never share a path — deleting one artifact can never touch
/// another's file.
pub proof fn lemma_artifact_paths_distinct(dir: Seq<char>, id1: nat, id2: nat, ext: Seq<char>)
    requires
        id1 != id2,
    ensures
        spec_artifact_path(dir, id1, ext) != spec_artifact_path(dir, id2, ext),
{
    reveal_strlit("/");
    reveal_strlit(".");
    let a = dec_str(id1);
    let b = dec_str(id2);
    let s1 = spec_artifact_path(dir, id1, ext);
    let s2 = spec_artifact_path(dir, id2, ext);
    if s1 == s2 {
        // Equal overall lengths force the numerals to have equal lengths,
        // and then equal characters, so the identifiers are equal.
        assert(s1.len() == dir.len() + 1 + a.len() + 1 + ext.len());
        assert(s2.len() == dir.len() + 1 + b.len() + 1 + ext.len());
        assert(a.len() == b.len());
        assert forall|j: int| 0 <= j < a.len() implies a[j] == b[j] by {
            assert(s1[dir.len() + 1 + j] == a[j]);
            assert(s2[dir.len() + 1 + j] == b[j]);
        }
        assert(a =~= b);
        crate::numbers::lemma_dec_value_of_dec_str(id1);
        crate::numbers::lemma_dec_value_of_dec_str(id2);
        assert(false);
    }
}

/// The derived coverage-data path of a snippet artifact: the artifact's
/// own path with `".cov"` appended.
pub fn coverage_data_path(path: &str) -> (r: String)
    ensures
        r@ == path@ + ".cov"@,
{
    let mut p = path.to_owned();
    p.append(".cov");
    p
}

} // verus!

//! The commit graph, as far as the variance of a mirror speaks of it: which commit is
//! an ancestor of which, and how many commits lie beyond a merge base.

use crate::git::{graph_consistent, variance_of, Variance};
use vstd::prelude::*;

verus! {

/// A commit graph: the parents of each commit, by the commits' names.
pub struct History {
    pub parents: Map<Seq<u8>, Seq<Seq<u8>>>,
}

impl History {
    /// Whether `parent` is a parent of `child`.
    pub open spec fn is_parent(self, child: Seq<u8>, parent: Seq<u8>) -> bool {
        self.parents.dom().contains(child) && self.parents[child].contains(parent)
    }

    /// Whether `c` is `tip`, or is reached from it over at most `n` parents.
    pub open spec fn reaches_within(self, tip: Seq<u8>, c: Seq<u8>, n: nat) -> bool
        decreases n,
    {
        tip == c || (n > 0 && exists|p: Seq<u8>|
            self.is_parent(tip, p) && #[trigger] self.reaches_within(p, c, (n - 1) as nat))
    }

    /// Whether `c` is `tip` or one of its ancestors.
    pub open spec fn reaches(self, tip: Seq<u8>, c: Seq<u8>) -> bool {
        exists|n: nat| self.reaches_within(tip, c, n)
    }

    /// Whether `ancestor` is an ancestor of `tip`, and not `tip` itself.
    pub open spec fn strict_ancestor(self, ancestor: Seq<u8>, tip: Seq<u8>) -> bool {
        self.reaches(tip, ancestor) && ancestor != tip
    }

    /// No commit is its own ancestor.
    pub open spec fn acyclic(self) -> bool {
        forall|a: Seq<u8>, b: Seq<u8>|
            #[trigger] self.reaches(a, b) && #[trigger] self.reaches(b, a) ==> a == b
    }

    /// The commits that are reached from `tip` and not from `base`.
    pub open spec fn beyond(self, tip: Seq<u8>, base: Seq<u8>) -> Set<Seq<u8>> {
        Set::new(|c: Seq<u8>| self.reaches(tip, c) && !self.reaches(base, c))
    }

    /// Whether `base` is a merge base of `a` and `b`: a commit that both reach, with no
    /// other such commit between it and them.
    pub open spec fn merge_base(self, base: Seq<u8>, a: Seq<u8>, b: Seq<u8>) -> bool {
        &&& self.reaches(a, base)
        &&& self.reaches(b, base)
        &&& forall|c: Seq<u8>|
            self.reaches(a, c) && self.reaches(b, c) && #[trigger] self.reaches(c, base) ==> c
                == base
    }

    /// Whether `base`, `ahead` and `behind` are what the graph gives for the two commits:
    /// a merge base, and the number of commits beyond it on each side.
    pub open spec fn gives(
        self,
        local: Seq<u8>,
        remote: Seq<u8>,
        base: Seq<u8>,
        ahead: usize,
        behind: usize,
    ) -> bool {
        &&& self.acyclic()
        &&& self.merge_base(base, local, remote)
        &&& self.beyond(local, base).finite()
        &&& self.beyond(local, base).len() == ahead
        &&& self.beyond(remote, base).finite()
        &&& self.beyond(remote, base).len() == behind
    }
}

/// Every commit reaches itself.
pub proof fn lemma_reaches_itself(h: History, c: Seq<u8>)
    ensures
        h.reaches(c, c),
{
    assert(h.reaches_within(c, c, 0));
}

/// In a graph without cycles, beyond a commit that `tip` reaches lies nothing exactly
/// where that commit is `tip` itself.
pub proof fn lemma_beyond_empty(h: History, tip: Seq<u8>, base: Seq<u8>)
    requires
        h.acyclic(),
        h.reaches(tip, base),
        h.beyond(tip, base).finite(),
    ensures
        h.beyond(tip, base).len() == 0 <==> base == tip,
{
    if base == tip {
        assert(h.beyond(tip, base) =~= Set::<Seq<u8>>::empty());
    } else {
        lemma_reaches_itself(h, tip);
        assert(h.beyond(tip, base).contains(tip));
        vstd::set::axiom_set_contains_len(h.beyond(tip, base), tip);
    }
}

/// What a commit graph gives for two commits is consistent.
pub proof fn lemma_graph_consistent(
    h: History,
    local: Seq<u8>,
    remote: Seq<u8>,
    base: Seq<u8>,
    ahead: usize,
    behind: usize,
)
    requires
        h.gives(local, remote, base, ahead, behind),
    ensures
        graph_consistent(local, remote, base, ahead, behind),
{
    lemma_beyond_empty(h, local, base);
    lemma_beyond_empty(h, remote, base);
}

/// On a branch, in any commit graph without cycles: the variance is `Equal` exactly
/// where the local and the upstream commit are the same; `Ahead(n)` exactly where the
/// upstream commit is a strict ancestor of the local one, `n` being the number of
/// commits that the local one reaches and the upstream one does not; `Behind(n)`
/// exactly where the local commit is a strict ancestor of the upstream one, with `n`
/// counted the other way round; and `Diverged` exactly where neither reaches the other,
/// with the number of commits beyond the merge base on each side. No count that is shown
/// is zero.
pub proof fn lemma_variance_in_graph(
    h: History,
    local: Seq<u8>,
    remote: Seq<u8>,
    base: Seq<u8>,
    ahead: usize,
    behind: usize,
)
    requires
        h.gives(local, remote, base, ahead, behind),
    ensures
        variance_of(true, local, remote, base, ahead, behind) == Variance::Equal <==> local
            == remote,
        forall|n: usize|
            variance_of(true, local, remote, base, ahead, behind) == Variance::Ahead(n) <==> (
            h.strict_ancestor(remote, local) && n == h.beyond(local, remote).len()),
        forall|n: usize|
            variance_of(true, local, remote, base, ahead, behind) == Variance::Behind(n) <==> (
            h.strict_ancestor(local, remote) && n == h.beyond(remote, local).len()),
        forall|l: usize, r: usize|
            variance_of(true, local, remote, base, ahead, behind) == (Variance::Diverged {
                local: l,
                remote: r,
            }) <==> (!h.reaches(local, remote) && !h.reaches(remote, local) && l == ahead && r
                == behind),
        variance_of(true, local, remote, base, ahead, behind) matches Variance::Ahead(n) ==> n > 0,
        variance_of(true, local, remote, base, ahead, behind) matches Variance::Behind(n) ==> n
            > 0,
        variance_of(true, local, remote, base, ahead, behind) matches Variance::Diverged {
            local: l,
            remote: r,
        } ==> l > 0 && r > 0,
{
    lemma_graph_consistent(h, local, remote, base, ahead, behind);
    lemma_reaches_itself(h, local);
    lemma_reaches_itself(h, remote);
    if h.reaches(local, remote) {
        assert(h.reaches(remote, base));
        assert(remote == base);
    }
    if h.reaches(remote, local) {
        assert(h.reaches(local, base));
        assert(local == base);
    }
}

} // verus!

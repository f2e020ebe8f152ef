//! What a mirror's state means: how far the local branch has moved from the upstream
//! snapshot, and which uncommitted changes are worth a line.

use crate::text::{decimal, push_decimal, views};
use vstd::prelude::*;

verus! {

/// What `<str as Debug>::fmt` writes for `s`: the text in double quotes, with the
/// characters that cannot stand there escaped.
pub uninterp spec fn debug_text(s: Seq<char>) -> Seq<char>;

/// What the `Debug` impl of `git2::Status` writes for the flags that `bits` holds.
pub uninterp spec fn status_debug(bits: u32) -> Seq<char>;

/// `format!("{:?}", s)` for a string slice: the quoted and escaped form of `s`.
#[verifier::external_body]
fn debug_quoted(s: &str) -> (r: String)
    ensures
        r@ == debug_text(s@),
{
    format!("{:?}", s)
}

/// `git2::Status::from_bits_truncate`, then the `Debug` form of those flags.
#[verifier::external_body]
fn status_debug_text(bits: u32) -> (r: String)
    ensures
        r@ == status_debug(bits),
{
    format!("{:?}", git2::Status::from_bits_truncate(bits))
}

/// The name of a commit: the bytes of its hash.
#[derive(Clone, Debug)]
pub struct ObjectId {
    pub bytes: Vec<u8>,
}

impl ObjectId {
    /// Tells whether two names are the same.
    pub fn same(&self, other: &ObjectId) -> (r: bool)
        ensures
            r == (self.bytes@ == other.bytes@),
    {
        if self.bytes.len() != other.bytes.len() {
            return false;
        }
        let mut i: usize = 0;
        while i < self.bytes.len()
            invariant
                i <= self.bytes.len(),
                self.bytes.len() == other.bytes.len(),
                self.bytes@.take(i as int) == other.bytes@.take(i as int),
            decreases self.bytes.len() - i,
        {
            if self.bytes[i] != other.bytes[i] {
                return false;
            }
            proof {
                assert(self.bytes@.take(i as int + 1) == self.bytes@.take(i as int).push(
                    self.bytes@[i as int],
                ));
                assert(other.bytes@.take(i as int + 1) == other.bytes@.take(i as int).push(
                    other.bytes@[i as int],
                ));
            }
            i = i + 1;
        }
        proof {
            assert(self.bytes@.take(self.bytes.len() as int) == self.bytes@);
            assert(other.bytes@.take(other.bytes.len() as int) == other.bytes@);
        }
        true
    }
}

/// How the local branch stands to the upstream snapshot.
#[derive(PartialEq, Eq, Structural, Clone, Debug)]
pub enum Variance {
    Equal,
    NotOnBranch,
    /// Directly ahead of the upstream, by so many commits.
    Ahead(usize),
    /// Directly behind the upstream, by so many commits: a fast forward.
    Behind(usize),
    /// Each side has commits that the other lacks.
    Diverged { local: usize, remote: usize },
}

/// The variance of two different commits `local` and `remote` with merge base `base`,
/// where `ahead` commits lead from the base to `local` and `behind` to `remote`.
pub open spec fn classify(
    local: Seq<u8>,
    remote: Seq<u8>,
    base: Seq<u8>,
    ahead: usize,
    behind: usize,
) -> Variance {
    if base == remote && ahead != 0 {
        Variance::Ahead(ahead)
    } else if base == local && behind != 0 {
        Variance::Behind(behind)
    } else {
        Variance::Diverged { local: ahead, remote: behind }
    }
}

/// The variance of a mirror whose `HEAD` is a branch or not, with the local and the
/// upstream commit and what the commit graph says of the two.
pub open spec fn variance_of(
    is_branch: bool,
    local: Seq<u8>,
    remote: Seq<u8>,
    base: Seq<u8>,
    ahead: usize,
    behind: usize,
) -> Variance {
    if !is_branch {
        Variance::NotOnBranch
    } else if local == remote {
        Variance::Equal
    } else {
        classify(local, remote, base, ahead, behind)
    }
}

/// What holds of a merge base and of the two counts in every commit graph: a side has
/// no commits beyond the base exactly where it is the base.
pub open spec fn graph_consistent(
    local: Seq<u8>,
    remote: Seq<u8>,
    base: Seq<u8>,
    ahead: usize,
    behind: usize,
) -> bool {
    &&& (ahead == 0 <==> base == local)
    &&& (behind == 0 <==> base == remote)
}

impl Variance {
    /// The variance in the notation of a derived `Debug`.
    pub open spec fn spec_describe(&self) -> Seq<char> {
        match self {
            Variance::Equal => "Equal"@,
            Variance::NotOnBranch => "NotOnBranch"@,
            Variance::Ahead(n) => "Ahead("@ + decimal(*n as nat) + ")"@,
            Variance::Behind(n) => "Behind("@ + decimal(*n as nat) + ")"@,
            Variance::Diverged { local, remote } => "Diverged { local: "@ + decimal(*local as nat)
                + ", remote: "@ + decimal(*remote as nat) + " }"@,
        }
    }

    /// The variance in the notation of a derived `Debug`: `Ahead(2)`,
    /// `Diverged { local: 1, remote: 3 }`.
    pub fn describe(&self) -> (r: String)
        ensures
            r@ == self.spec_describe(),
    {
        let mut out = String::new();
        match self {
            Variance::Equal => out.append("Equal"),
            Variance::NotOnBranch => out.append("NotOnBranch"),
            Variance::Ahead(n) => {
                out.append("Ahead(");
                push_decimal(&mut out, *n as u64);
                out.append(")");
            },
            Variance::Behind(n) => {
                out.append("Behind(");
                push_decimal(&mut out, *n as u64);
                out.append(")");
            },
            Variance::Diverged { local, remote } => {
                out.append("Diverged { local: ");
                push_decimal(&mut out, *local as u64);
                out.append(", remote: ");
                push_decimal(&mut out, *remote as u64);
                out.append(" }");
            },
        }
        out
    }
}

/// The variance of a mirror, from all that is read of it: whether `HEAD` is a branch,
/// the local and the upstream commit, their merge base, and the number of commits that
/// lead from the base to each of them. A `HEAD` that is no branch is `NotOnBranch`
/// whatever the rest holds; the same commit on both sides is `Equal`; the upstream being
/// the base with commits on the local side means ahead; the local commit being the base
/// with commits on the upstream side means behind; all else is divergence.
pub fn variance_from_origin_head(
    is_branch: bool,
    local: &ObjectId,
    remote: &ObjectId,
    base: &ObjectId,
    ahead: usize,
    behind: usize,
) -> (r: Variance)
    ensures
        r == variance_of(is_branch, local.bytes@, remote.bytes@, base.bytes@, ahead, behind),
        r == Variance::NotOnBranch <==> !is_branch,
        r == Variance::Equal <==> is_branch && local.bytes@ == remote.bytes@,
        r matches Variance::Ahead(n) ==> n > 0,
        r matches Variance::Behind(n) ==> n > 0,
        graph_consistent(local.bytes@, remote.bytes@, base.bytes@, ahead, behind) ==> (r
            matches Variance::Diverged { local: l, remote: m } ==> l > 0 && m > 0),
{
    if !is_branch {
        Variance::NotOnBranch
    } else if local.same(remote) {
        Variance::Equal
    } else if base.same(remote) && 0 != ahead {
        Variance::Ahead(ahead)
    } else if base.same(local) && 0 != behind {
        Variance::Behind(behind)
    } else {
        Variance::Diverged { local: ahead, remote: behind }
    }
}

/// How far the reading of a mirror's variance has come: what was asked for last, and
/// what is kept of the answers.
#[derive(Clone, Debug)]
pub enum Probe {
    /// Whether `HEAD` is a branch.
    Head,
    /// The local and the upstream commit.
    Tips,
    /// The merge base of these two commits, and the commits beyond it on each side.
    Graph { local: ObjectId, remote: ObjectId },
    /// Nothing more: the variance is known.
    Done,
}

/// What is to be read next of a mirror.
#[derive(Clone, Debug)]
pub enum Wanted {
    /// Whether `HEAD` is a branch.
    Head,
    /// The commit of `HEAD` and the commit that the upstream snapshot resolves to.
    Tips,
    /// The merge base of the two commits, and the number of commits that each of them
    /// reaches and the base does not.
    Graph,
    /// Nothing: this is the variance.
    Finish(Variance),
}

/// What was read of a mirror.
#[derive(Clone, Debug)]
pub enum Found {
    /// Whether `HEAD` is a branch.
    Head(bool),
    /// The local and the upstream commit.
    Tips(ObjectId, ObjectId),
    /// The merge base, the commits beyond it on the local side, and those on the
    /// upstream side.
    Graph(ObjectId, usize, usize),
}

impl Probe {
    /// What follows when `found` was read: a `HEAD` that is no branch ends the reading,
    /// and so does the same commit on both sides, so that no more is read than the
    /// variance needs. What does not answer the last request is refused.
    pub open spec fn next(self, found: Found) -> Option<(Probe, Wanted)> {
        match (self, found) {
            (Probe::Head, Found::Head(is_branch)) => if is_branch {
                Some((Probe::Tips, Wanted::Tips))
            } else {
                Some((Probe::Done, Wanted::Finish(Variance::NotOnBranch)))
            },
            (Probe::Tips, Found::Tips(local, remote)) => if local.bytes@ == remote.bytes@ {
                Some((Probe::Done, Wanted::Finish(Variance::Equal)))
            } else {
                Some((Probe::Graph { local, remote }, Wanted::Graph))
            },
            (Probe::Graph { local, remote }, Found::Graph(base, ahead, behind)) => Some(
                (
                    Probe::Done,
                    Wanted::Finish(
                        variance_of(true, local.bytes@, remote.bytes@, base.bytes@, ahead, behind),
                    ),
                ),
            ),
            _ => None,
        }
    }

    /// Begins the reading of a mirror's variance: first of all `HEAD` is looked at.
    pub fn new() -> (r: (Probe, Wanted))
        ensures
            r.0 is Head,
            r.1 is Head,
    {
        (Probe::Head, Wanted::Head)
    }

    /// Takes what was read and says what is to be read next, or what the variance is.
    pub fn step(self, found: Found) -> (r: Option<(Probe, Wanted)>)
        ensures
            r == self.next(found),
    {
        match (self, found) {
            (Probe::Head, Found::Head(is_branch)) => {
                if is_branch {
                    Some((Probe::Tips, Wanted::Tips))
                } else {
                    Some((Probe::Done, Wanted::Finish(Variance::NotOnBranch)))
                }
            },
            (Probe::Tips, Found::Tips(local, remote)) => {
                if local.same(&remote) {
                    Some((Probe::Done, Wanted::Finish(Variance::Equal)))
                } else {
                    Some((Probe::Graph { local, remote }, Wanted::Graph))
                }
            },
            (Probe::Graph { local, remote }, Found::Graph(base, ahead, behind)) => {
                let variance = variance_from_origin_head(
                    true,
                    &local,
                    &remote,
                    &base,
                    ahead,
                    behind,
                );
                Some((Probe::Done, Wanted::Finish(variance)))
            },
            _ => None,
        }
    }
}

/// The variance that a reading ends with, step by step.
pub open spec fn probed(
    is_branch: bool,
    local: ObjectId,
    remote: ObjectId,
    base: ObjectId,
    ahead: usize,
    behind: usize,
) -> Option<(Probe, Wanted)> {
    match Probe::Head.next(Found::Head(is_branch)) {
        Some((Probe::Tips, _)) => match Probe::Tips.next(Found::Tips(local, remote)) {
            Some((Probe::Graph { local: l, remote: r }, _)) => (Probe::Graph {
                local: l,
                remote: r,
            }).next(Found::Graph(base, ahead, behind)),
            other => other,
        },
        other => other,
    }
}

/// A reading that is carried through step by step ends with the variance of what was
/// read, whether it ends at `HEAD`, at the two commits or at the graph.
pub proof fn lemma_probe_gives_variance(
    is_branch: bool,
    local: ObjectId,
    remote: ObjectId,
    base: ObjectId,
    ahead: usize,
    behind: usize,
)
    ensures
        probed(is_branch, local, remote, base, ahead, behind) matches Some(
            (Probe::Done, Wanted::Finish(v)),
        ) && v == variance_of(
            is_branch,
            local.bytes@,
            remote.bytes@,
            base.bytes@,
            ahead,
            behind,
        ),
{
}

/// On a branch, with a merge base and counts as a commit graph gives them: the variance
/// is `Equal` exactly where both commits are the same; `Ahead(n)` exactly where the
/// upstream is the merge base of two different commits, `n` being the commits on the
/// local side; `Behind(n)` likewise with the sides exchanged; and else `Diverged`, with
/// the counts of both sides. A count that is shown is never zero.
pub proof fn lemma_variance(
    local: Seq<u8>,
    remote: Seq<u8>,
    base: Seq<u8>,
    ahead: usize,
    behind: usize,
)
    requires
        graph_consistent(local, remote, base, ahead, behind),
    ensures
        variance_of(true, local, remote, base, ahead, behind) == Variance::Equal <==> local
            == remote,
        forall|n: usize|
            variance_of(true, local, remote, base, ahead, behind) == Variance::Ahead(n) <==> (
            local != remote && base == remote && n == ahead),
        forall|n: usize|
            variance_of(true, local, remote, base, ahead, behind) == Variance::Behind(n) <==> (
            local != remote && base == local && n == behind),
        forall|l: usize, r: usize|
            variance_of(true, local, remote, base, ahead, behind) == (Variance::Diverged {
                local: l,
                remote: r,
            }) <==> (local != remote && base != local && base != remote && l == ahead && r
                == behind),
        variance_of(true, local, remote, base, ahead, behind) matches Variance::Ahead(n) ==> n > 0,
        variance_of(true, local, remote, base, ahead, behind) matches Variance::Behind(n) ==> n
            > 0,
        variance_of(true, local, remote, base, ahead, behind) matches Variance::Diverged {
            local: l,
            remote: r,
        } ==> l > 0 && r > 0,
{
}

/// The flags of one entry of a mirror's status, as the bits of `git2::Status`.
pub const INDEX_NEW: u32 = 0x0001;

pub const INDEX_MODIFIED: u32 = 0x0002;

pub const INDEX_DELETED: u32 = 0x0004;

pub const INDEX_RENAMED: u32 = 0x0008;

pub const WT_NEW: u32 = 0x0080;

pub const WT_MODIFIED: u32 = 0x0100;

pub const WT_DELETED: u32 = 0x0200;

pub const WT_RENAMED: u32 = 0x0800;

pub const IGNORED: u32 = 0x4000;

pub const CONFLICTED: u32 = 0x8000;

/// At most so many changes are listed for a mirror.
pub const MAX_CHANGES: usize = 3;

/// One entry of a mirror's status: the flags of a path, and the path where it is text.
#[derive(Clone, Debug)]
pub struct StatusEntry {
    pub flags: u32,
    pub path: Option<String>,
}

/// The word for a change that is one single flag, where that flag has a word.
pub open spec fn word_of(flags: u32) -> Option<Seq<char>> {
    if flags == INDEX_NEW {
        Some("add"@)
    } else if flags == WT_NEW {
        Some("new"@)
    } else if flags == INDEX_MODIFIED || flags == WT_MODIFIED {
        Some("mod"@)
    } else if flags == INDEX_DELETED || flags == WT_DELETED {
        Some("del"@)
    } else if flags == INDEX_RENAMED || flags == WT_RENAMED {
        Some("mov"@)
    } else if flags == CONFLICTED {
        Some("CON"@)
    } else {
        None
    }
}

/// The code of a change, given the raw form of its flags: the flag's word, or for flags
/// without a word their raw form between question marks.
pub open spec fn code_of(flags: u32, raw: Seq<char>) -> Seq<char> {
    match word_of(flags) {
        Some(word) => word,
        None => "?"@ + raw + "?"@,
    }
}

/// The line of a change: its code, a space, and its path as it is shown.
pub open spec fn line_of(code: Seq<char>, shown_path: Seq<char>) -> Seq<char> {
    code + " "@ + shown_path
}

/// The word for a change that is one single flag: `add` for a new file in the index,
/// `new` for an untracked one, `mod`, `del` and `mov` for a file modified, deleted or
/// renamed in the index or in the working tree, `CON` for a conflict.
pub fn change_word(flags: u32) -> (r: Option<&'static str>)
    ensures
        r matches Some(w) ==> word_of(flags) == Some(w@),
        r is None ==> word_of(flags) is None,
{
    if flags == INDEX_NEW {
        Some("add")
    } else if flags == WT_NEW {
        Some("new")
    } else if flags == INDEX_MODIFIED || flags == WT_MODIFIED {
        Some("mod")
    } else if flags == INDEX_DELETED || flags == WT_DELETED {
        Some("del")
    } else if flags == INDEX_RENAMED || flags == WT_RENAMED {
        Some("mov")
    } else if flags == CONFLICTED {
        Some("CON")
    } else {
        None
    }
}

/// The line of a change with flags `flags` whose raw form is `raw`, at a path that is
/// shown as `shown_path`.
pub fn change_line(flags: u32, raw: &str, shown_path: &str) -> (r: String)
    ensures
        r@ == line_of(code_of(flags, raw@), shown_path@),
{
    let mut out = String::new();
    match change_word(flags) {
        Some(word) => out.append(word),
        None => {
            out.append("?");
            out.append(raw);
            out.append("?");
        },
    }
    out.append(" ");
    out.append(shown_path);
    out
}

impl StatusEntry {
    /// Whether the path is an ignored one.
    pub open spec fn ignored(&self) -> bool {
        self.flags & IGNORED != 0
    }

    /// The path as it is shown: quoted, and `?` for one that is no text.
    pub open spec fn shown_path(&self) -> Seq<char> {
        match self.path {
            Some(p) => debug_text(p@),
            None => debug_text("?"@),
        }
    }

    /// The line of the entry: its code, a space, its path.
    pub open spec fn line(&self) -> Seq<char> {
        line_of(code_of(self.flags, status_debug(self.flags)), self.shown_path())
    }

    /// The line of the entry: its code, a space, its path.
    pub fn render(&self) -> (r: String)
        ensures
            r@ == self.line(),
    {
        let raw = match change_word(self.flags) {
            Some(_) => String::new(),
            None => status_debug_text(self.flags),
        };
        let shown = match &self.path {
            Some(p) => debug_quoted(p.as_str()),
            None => debug_quoted("?"),
        };
        change_line(self.flags, raw.as_str(), shown.as_str())
    }
}

/// The predicate of the entries that are listed: those of paths that are not ignored.
pub open spec fn listed() -> spec_fn(StatusEntry) -> bool {
    |e: StatusEntry| !e.ignored()
}

/// The lines of `entries`, each by [`StatusEntry::line`].
pub open spec fn lines_of(entries: Seq<StatusEntry>) -> Seq<Seq<char>> {
    entries.map_values(|e: StatusEntry| e.line())
}

/// The lines of the first entries of `entries` that are not ignored, [`MAX_CHANGES`] at
/// most, in the order of `entries`.
pub open spec fn shown_changes(entries: Seq<StatusEntry>) -> Seq<Seq<char>> {
    let kept = entries.filter(listed());
    let shown = if kept.len() > MAX_CHANGES {
        kept.take(MAX_CHANGES as int)
    } else {
        kept
    };
    lines_of(shown)
}

/// Whether `line` is the line of an entry of `entries` whose path is not ignored.
pub open spec fn line_of_listed(entries: Seq<StatusEntry>, line: Seq<char>) -> bool {
    exists|i: int|
        0 <= i < entries.len() && !(#[trigger] entries[i]).ignored() && entries[i].line() == line
}

/// No more than [`MAX_CHANGES`] lines are listed, and each is the line of an entry whose
/// path is not ignored.
pub proof fn lemma_shown_changes(entries: Seq<StatusEntry>)
    ensures
        shown_changes(entries).len() <= MAX_CHANGES,
        forall|k: int|
            0 <= k < shown_changes(entries).len() ==> line_of_listed(
                entries,
                #[trigger] shown_changes(entries)[k],
            ),
{
    let kept = entries.filter(listed());
    assert forall|k: int| 0 <= k < shown_changes(entries).len() implies line_of_listed(
        entries,
        #[trigger] shown_changes(entries)[k],
    ) by {
        let e = kept[k];
        entries.lemma_filter_pred(listed(), k);
        assert(kept.contains(e));
        entries.lemma_filter_contains_rev(listed(), e);
        let i = choose|i: int| 0 <= i < entries.len() && entries[i] == e;
        assert(!entries[i].ignored());
        assert(shown_changes(entries)[k] == entries[i].line());
    }
}

/// A short account of a mirror's uncommitted changes: a line for each of the first
/// [`MAX_CHANGES`] entries whose path is not ignored.
pub fn first_statuses(entries: &Vec<StatusEntry>) -> (r: Vec<String>)
    ensures
        views(r@) == shown_changes(entries@),
        r@.len() <= MAX_CHANGES,
{
    let mut out: Vec<String> = Vec::new();
    let ghost mut kept: Seq<StatusEntry> = Seq::empty();
    let mut i: usize = 0;
    proof {
        reveal(Seq::filter);
        assert(entries@.take(0).filter(listed()) == kept);
    }
    while i < entries.len() && out.len() < MAX_CHANGES
        invariant
            i <= entries.len(),
            out.len() <= MAX_CHANGES,
            kept == entries@.take(i as int).filter(listed()),
            views(out@) == lines_of(kept),
        decreases entries.len() - i,
    {
        let e = &entries[i];
        proof {
            reveal(Seq::filter);
            assert(entries@.take(i as int + 1).drop_last() == entries@.take(i as int));
        }
        if e.flags & IGNORED == 0 {
            let line = e.render();
            proof {
                assert(views(out@.push(line)) == views(out@).push(line@));
                assert(lines_of(kept.push(*e)) == lines_of(kept).push(e.line()));
                kept = kept.push(*e);
            }
            out.push(line);
        }
        i = i + 1;
    }
    proof {
        let rest = entries@.skip(i as int);
        assert(entries@ == entries@.take(i as int) + rest);
        Seq::filter_distributes_over_add(entries@.take(i as int), rest, listed());
        let all = entries@.filter(listed());
        assert(all == kept + rest.filter(listed()));
        if i == entries.len() {
            assert(rest.len() == 0);
            assert(rest.filter(listed()).len() == 0);
            assert(all == kept);
        } else {
            assert(all.take(MAX_CHANGES as int) == kept);
        }
    }
    out
}

/// A failure of the repository store: that something looked for is not there, or
/// anything else, each with the store's message.
#[derive(Clone, Debug)]
pub enum VcsError {
    NotFound(String),
    Other(String),
}

/// Takes a lookup that failed because nothing was found for a lookup that found nothing:
/// such a failure is an answer, every other one stays a failure.
pub fn if_found<T>(res: Result<T, VcsError>) -> (r: Result<Option<T>, VcsError>)
    ensures
        res matches Ok(t) ==> r == Ok::<Option<T>, VcsError>(Some(t)),
        res matches Err(VcsError::NotFound(_)) ==> r == Ok::<Option<T>, VcsError>(None),
        res matches Err(VcsError::Other(m)) ==> r == Err::<Option<T>, VcsError>(
            VcsError::Other(m),
        ),
{
    match res {
        Ok(t) => Ok(Some(t)),
        Err(VcsError::NotFound(_)) => Ok(None),
        Err(e) => Err(e),
    }
}

/// What a fetch reports while it runs.
#[derive(Clone, Debug)]
pub enum Progress {
    /// Text from the remote side, such as "counting objects".
    Sideband(String),
    /// The counters of the transfer: local, received, indexed and total objects, indexed
    /// and total deltas, and received bytes.
    Transfer([usize; 7]),
}

impl Progress {
    /// The report of a transfer's counters, in the order in which they are kept.
    pub fn transfer(
        local_objects: usize,
        received_objects: usize,
        indexed_objects: usize,
        total_objects: usize,
        indexed_deltas: usize,
        total_deltas: usize,
        received_bytes: usize,
    ) -> (r: Progress)
        ensures
            r matches Progress::Transfer(c) && c@ == seq![
                local_objects,
                received_objects,
                indexed_objects,
                total_objects,
                indexed_deltas,
                total_deltas,
                received_bytes,
            ],
    {
        Progress::Transfer(
            [
                local_objects,
                received_objects,
                indexed_objects,
                total_objects,
                indexed_deltas,
                total_deltas,
                received_bytes,
            ],
        )
    }
}

} // verus!

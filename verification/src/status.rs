//! The state of each mirror, and the report over all of them.

use crate::config::Spec;
use crate::git::Variance;
use crate::git_url::IdentityError;
use crate::infect::{
    fetches_remote_head, has_remote_head, remote_head_entry, remote_head_mapping,
};
use crate::text::{join, join_comma, views};
use vstd::prelude::*;

verus! {

/// The state of one mirror.
#[derive(PartialEq, Eq, Clone, Debug)]
pub enum Status {
    /// There is no mirror on disk.
    Absent,
    /// The mirror differs from its upstream: the lines of its changes, and its variance.
    Changes(Vec<String>, Variance),
    Clean,
}

/// What to do to a mirror before its state is read.
#[derive(PartialEq, Eq, Structural, Clone, Copy, Debug)]
pub struct Refresh {
    /// Add the mapping of the remote's `HEAD` to the mirror's configuration.
    pub add_mapping: bool,
    /// Fetch from `origin`.
    pub fetch: bool,
}

/// At most so many changes of a mirror are shown in the report.
pub const SHOWN_CHANGES: usize = 2;

/// A mirror that lacks the mapping gets it, and is then fetched from; one that has it is
/// fetched from only on request.
pub fn plan_refresh(update: bool, configured: bool) -> (r: Refresh)
    ensures
        r.add_mapping == !configured,
        r.fetch == (update || !configured),
{
    Refresh { add_mapping: !configured, fetch: update || !configured }
}

/// The state of a mirror with the given variance and changes: clean where there are no
/// changes and the variance is `Equal`.
pub fn find_variance(variance: Variance, some_statuses: Vec<String>) -> (r: Status)
    ensures
        r == state_of(variance, some_statuses),
{
    let equal = match variance {
        Variance::Equal => true,
        _ => false,
    };
    if some_statuses.len() != 0 || !equal {
        Status::Changes(some_statuses, variance)
    } else {
        Status::Clean
    }
}

/// How far the reading of one mirror's state has come: what was asked for last.
#[derive(PartialEq, Eq, Structural, Clone, Copy, Debug)]
pub enum Stage {
    /// Whether the mirror's directory exists.
    Dir,
    /// The entries of `remote.origin.fetch`.
    Mappings,
    /// That the mapping of the remote's `HEAD` be added.
    Mapping,
    /// That `origin` be fetched from.
    Fetch,
    /// The mirror's variance and changes.
    State,
    /// Nothing more: the state is known.
    Done,
}

/// What is to be done next for a mirror.
#[derive(PartialEq, Eq, Clone, Debug)]
pub enum Request {
    /// Tell whether the mirror's directory exists.
    CheckDir,
    /// Open the mirror and read the entries of `remote.origin.fetch`.
    ReadMappings,
    /// Add this entry to `remote.origin.fetch`.
    AddMapping(String),
    /// Fetch from `origin`, by the mappings that are configured.
    Fetch,
    /// Read the mirror's variance and the lines of its changes.
    ReadState,
    /// Nothing: this is the mirror's state.
    Finish(Status),
}

/// What was found when a request was met.
#[derive(Clone, Debug)]
pub enum Observed {
    /// Whether the mirror's directory exists.
    Dir(bool),
    /// The entries of `remote.origin.fetch`; one without a value is `None`.
    Mappings(Vec<Option<String>>),
    MappingAdded,
    Fetched,
    /// The mirror's variance and the lines of its changes.
    State(Variance, Vec<String>),
}

/// The reading of one mirror's state, step by step: the caller meets each request and
/// says what it found, until the state is known.
#[derive(Clone, Copy, Debug)]
pub struct Inquiry {
    /// Whether a fetch was asked for.
    pub update: bool,
    pub stage: Stage,
}

/// Whether what was found answers what was asked for last.
pub open spec fn answers(stage: Stage, seen: Observed) -> bool {
    match stage {
        Stage::Dir => seen is Dir,
        Stage::Mappings => seen is Mappings,
        Stage::Mapping => seen is MappingAdded,
        Stage::Fetch => seen is Fetched,
        Stage::State => seen is State,
        Stage::Done => false,
    }
}

/// The stage that follows when `seen` was found at `stage`.
pub open spec fn next_stage(update: bool, stage: Stage, seen: Observed) -> Stage {
    match seen {
        Observed::Dir(exists) => if exists {
            Stage::Mappings
        } else {
            Stage::Done
        },
        Observed::Mappings(entries) => if !has_remote_head(entries@) {
            Stage::Mapping
        } else if update {
            Stage::Fetch
        } else {
            Stage::State
        },
        Observed::MappingAdded => Stage::Fetch,
        Observed::Fetched => Stage::State,
        Observed::State(_, _) => Stage::Done,
    }
}

/// Whether `request` is what is asked for on entering `stage`, `seen` having been found.
pub open spec fn asked_at(stage: Stage, seen: Observed, request: Request) -> bool {
    match stage {
        Stage::Dir => request == Request::CheckDir,
        Stage::Mappings => request == Request::ReadMappings,
        Stage::Mapping => request matches Request::AddMapping(m) && m@ == remote_head_mapping(),
        Stage::Fetch => request == Request::Fetch,
        Stage::State => request == Request::ReadState,
        Stage::Done => match seen {
            Observed::State(variance, changes) => request == Request::Finish(
                state_of(variance, changes),
            ),
            _ => request == Request::Finish(Status::Absent),
        },
    }
}

/// The state of a mirror with the given variance and changes.
pub open spec fn state_of(variance: Variance, changes: Vec<String>) -> Status {
    if changes@.len() == 0 && variance == Variance::Equal {
        Status::Clean
    } else {
        Status::Changes(changes, variance)
    }
}

impl Inquiry {
    /// Begins the reading of a mirror's state: first of all its directory is looked for.
    pub fn new(update: bool) -> (r: (Inquiry, Request))
        ensures
            r.0.update == update,
            r.0.stage == Stage::Dir,
            r.1 == Request::CheckDir,
    {
        (Inquiry { update, stage: Stage::Dir }, Request::CheckDir)
    }

    /// Takes what was found and says what is to be done next. A mirror without a
    /// directory is absent, and nothing more is asked of it. A mirror that lacks the
    /// mapping of the remote's `HEAD` gets it and is then fetched from; one that has it
    /// is fetched from only where an update was asked for. Then the state is read.
    /// What does not answer the last request is refused.
    pub fn step(self, seen: Observed) -> (r: Option<(Inquiry, Request)>)
        ensures
            r is Some <==> answers(self.stage, seen),
            r matches Some((next, request)) ==> next.update == self.update && next.stage
                == next_stage(self.update, self.stage, seen) && asked_at(
                next.stage,
                seen,
                request,
            ),
    {
        let update = self.update;
        match (self.stage, seen) {
            (Stage::Dir, Observed::Dir(exists)) => {
                if exists {
                    Some((Inquiry { update, stage: Stage::Mappings }, Request::ReadMappings))
                } else {
                    Some((Inquiry { update, stage: Stage::Done }, Request::Finish(Status::Absent)))
                }
            },
            (Stage::Mappings, Observed::Mappings(entries)) => {
                let plan = plan_refresh(update, fetches_remote_head(&entries));
                if plan.add_mapping {
                    Some(
                        (
                            Inquiry { update, stage: Stage::Mapping },
                            Request::AddMapping(remote_head_entry()),
                        ),
                    )
                } else if plan.fetch {
                    Some((Inquiry { update, stage: Stage::Fetch }, Request::Fetch))
                } else {
                    Some((Inquiry { update, stage: Stage::State }, Request::ReadState))
                }
            },
            (Stage::Mapping, Observed::MappingAdded) => Some(
                (Inquiry { update, stage: Stage::Fetch }, Request::Fetch),
            ),
            (Stage::Fetch, Observed::Fetched) => Some(
                (Inquiry { update, stage: Stage::State }, Request::ReadState),
            ),
            (Stage::State, Observed::State(variance, changes)) => Some(
                (
                    Inquiry { update, stage: Stage::Done },
                    Request::Finish(find_variance(variance, changes)),
                ),
            ),
            _ => None,
        }
    }
}

/// Whether a state is the one that a list of the report is about.
pub open spec fn listed_in(status: Status, absent: bool) -> bool {
    if absent {
        status is Absent
    } else {
        status is Clean
    }
}

/// The directory names of the mirrors that are absent (or clean), in the order of
/// `results`; a mirror without a directory name is left out.
pub open spec fn dirs_where(results: Seq<(Spec, Status)>, absent: bool) -> Seq<Seq<char>>
    decreases results.len(),
{
    if results.len() == 0 {
        Seq::empty()
    } else {
        let rest = dirs_where(results.drop_last(), absent);
        match results.last().0.url.spec_local_dir() {
            Ok(dir) => if listed_in(results.last().1, absent) {
                rest.push(dir)
            } else {
                rest
            },
            Err(_) => rest,
        }
    }
}

/// The changes that are shown: the first [`SHOWN_CHANGES`] of them.
pub open spec fn shown(changes: Seq<Seq<char>>) -> Seq<Seq<char>> {
    if changes.len() > SHOWN_CHANGES {
        changes.take(SHOWN_CHANGES as int)
    } else {
        changes
    }
}

/// The mark that stands behind the changes shown where there are more of them.
pub open spec fn more_mark(changes: Seq<Seq<char>>) -> Seq<char> {
    if changes.len() > SHOWN_CHANGES {
        ", ..."@
    } else {
        ""@
    }
}

/// The line of a mirror that differs from its upstream.
pub open spec fn change_line(dir: Seq<char>, changes: Seq<Seq<char>>, variance: Variance) -> Seq<
    char,
> {
    dir + ": ("@ + variance.spec_describe() + ") "@ + join(shown(changes), ", "@) + more_mark(
        changes,
    )
}

/// The lines of the mirrors that differ from their upstream, in the order of `results`,
/// up to the first of them that has no directory name, and the error of that one.
pub open spec fn change_lines(results: Seq<(Spec, Status)>) -> (Seq<Seq<char>>, Option<
    IdentityError,
>)
    decreases results.len(),
{
    if results.len() == 0 {
        (Seq::empty(), None)
    } else {
        let before = change_lines(results.drop_last());
        if before.1 is Some {
            before
        } else {
            match results.last().1 {
                Status::Changes(changes, variance) => match results.last().0.url.spec_local_dir() {
                    Ok(dir) => (before.0.push(change_line(dir, views(changes@), variance)), None),
                    Err(e) => (before.0, Some(e)),
                },
                _ => before,
            }
        }
    }
}

/// The report: the absent mirrors, the clean ones, and a line for each other one.
pub open spec fn report(results: Seq<(Spec, Status)>) -> Seq<Seq<char>> {
    seq![
        "absent: "@ + join(dirs_where(results, true), ", "@),
        "clean: "@ + join(dirs_where(results, false), ", "@),
    ] + change_lines(results).0
}

/// Once a mirror without a directory name has ended the lines, more results add nothing.
pub proof fn lemma_change_lines_stop(results: Seq<(Spec, Status)>, i: int)
    requires
        0 <= i <= results.len(),
        change_lines(results.take(i)).1 is Some,
    ensures
        change_lines(results) == change_lines(results.take(i)),
    decreases results.len() - i,
{
    if i < results.len() {
        assert(results.take(i + 1).drop_last() == results.take(i));
        lemma_change_lines_stop(results, i + 1);
    } else {
        assert(results.take(i) == results);
    }
}

/// The list of the directory names of the absent (or clean) mirrors, joined by commas.
fn list_dirs(results: &Vec<(Spec, Status)>, absent: bool) -> (r: String)
    ensures
        r@ == join(dirs_where(results@, absent), ", "@),
{
    let mut dirs: Vec<String> = Vec::new();
    let mut i: usize = 0;
    assert(results@.take(0) == Seq::<(Spec, Status)>::empty());
    while i < results.len()
        invariant
            i <= results.len(),
            views(dirs@) == dirs_where(results@.take(i as int), absent),
        decreases results.len() - i,
    {
        let wanted = match &results[i].1 {
            Status::Absent => absent,
            Status::Clean => !absent,
            _ => false,
        };
        proof {
            assert(results@.take(i as int + 1).drop_last() == results@.take(i as int));
            assert(results@.take(i as int + 1).last() == results@[i as int]);
        }
        if wanted {
            match results[i].0.url.local_dir() {
                Ok(dir) => {
                    let owned = dir.to_owned();
                    proof {
                        assert(views(dirs@.push(owned)) == views(dirs@).push(dir@));
                    }
                    dirs.push(owned);
                },
                Err(_) => {},
            }
        }
        i = i + 1;
    }
    proof {
        assert(results@.take(results.len() as int) == results@);
        assert(views(dirs@).take(dirs.len() as int) == views(dirs@));
    }
    join_comma(&dirs, dirs.len())
}

/// The line of a mirror that differs from its upstream: its directory, its variance in
/// brackets, and the first of its changes, with a mark where there are more.
pub fn render_changes(dir: &str, changes: &Vec<String>, variance: &Variance) -> (r: String)
    ensures
        r@ == change_line(dir@, views(changes@), *variance),
{
    let mut out = String::new();
    out.append(dir);
    out.append(": (");
    let described = variance.describe();
    out.append(described.as_str());
    out.append(") ");
    let count: usize = if changes.len() > SHOWN_CHANGES {
        SHOWN_CHANGES
    } else {
        changes.len()
    };
    proof {
        assert(views(changes@).take(changes.len() as int) == views(changes@));
    }
    let joined = join_comma(changes, count);
    out.append(joined.as_str());
    if changes.len() > SHOWN_CHANGES {
        out.append(", ...");
    } else {
        out.append("");
    }
    out
}

/// The report over all mirrors, line by line: the absent ones, the clean ones, then each
/// mirror that differs from its upstream. A differing mirror without a directory name
/// ends the report, and its error comes with the lines before it.
pub fn status(results: &Vec<(Spec, Status)>) -> (r: (Vec<String>, Result<(), IdentityError>))
    ensures
        views(r.0@) == report(results@),
        r.1 matches Err(e) ==> change_lines(results@).1 == Some(e),
        r.1 is Ok ==> change_lines(results@).1 is None,
{
    let mut lines: Vec<String> = Vec::new();
    let mut absent = String::new();
    absent.append("absent: ");
    let absent_dirs = list_dirs(results, true);
    absent.append(absent_dirs.as_str());
    let mut clean = String::new();
    clean.append("clean: ");
    let clean_dirs = list_dirs(results, false);
    clean.append(clean_dirs.as_str());
    let ghost head = seq![absent@, clean@];
    proof {
        assert(views(lines@.push(absent).push(clean)) == head);
        assert(results@.take(0) == Seq::<(Spec, Status)>::empty());
    }
    lines.push(absent);
    lines.push(clean);
    let mut i: usize = 0;
    while i < results.len()
        invariant
            i <= results.len(),
            head == seq![
                "absent: "@ + join(dirs_where(results@, true), ", "@),
                "clean: "@ + join(dirs_where(results@, false), ", "@),
            ],
            views(lines@) == head + change_lines(results@.take(i as int)).0,
            change_lines(results@.take(i as int)).1 is None,
        decreases results.len() - i,
    {
        proof {
            assert(results@.take(i as int + 1).drop_last() == results@.take(i as int));
            assert(results@.take(i as int + 1).last() == results@[i as int]);
        }
        match &results[i].1 {
            Status::Changes(changes, variance) => {
                match results[i].0.url.local_dir() {
                    Ok(dir) => {
                        let line = render_changes(dir, changes, variance);
                        proof {
                            assert(views(lines@.push(line)) == views(lines@).push(line@));
                        }
                        lines.push(line);
                    },
                    Err(e) => {
                        proof {
                            lemma_change_lines_stop(results@, i as int + 1);
                        }
                        return (lines, Err(e));
                    },
                }
            },
            _ => {},
        }
        i = i + 1;
    }
    proof {
        assert(results@.take(results.len() as int) == results@);
    }
    (lines, Ok(()))
}

/// The report over repositories that all have a directory name, as those of a list that
/// was read have, comes to its end without an error.
pub proof fn lemma_report_of_named(results: Seq<(Spec, Status)>)
    requires
        forall|i: int|
            0 <= i < results.len() ==> (#[trigger] results[i]).0.url.spec_local_dir() is Ok,
    ensures
        change_lines(results).1 is None,
    decreases results.len(),
{
    if results.len() > 0 {
        let before = results.drop_last();
        assert forall|i: int| 0 <= i < before.len() implies (
        #[trigger] before[i]).0.url.spec_local_dir() is Ok by {
            assert(before[i] == results[i]);
        }
        lemma_report_of_named(before);
        assert(results.last() == results[results.len() - 1]);
    }
}

/// The line of a differing mirror shows at most [`SHOWN_CHANGES`] of its changes, and the
/// mark for more stands there exactly where it has more than that.
pub proof fn lemma_report_shows_two(changes: Seq<Seq<char>>)
    ensures
        shown(changes).len() <= SHOWN_CHANGES,
        shown(changes) == changes.take(shown(changes).len() as int),
        more_mark(changes) == ", ..."@ <==> changes.len() > SHOWN_CHANGES,
{
    assert(changes.take(changes.len() as int) == changes);
    reveal_strlit(", ...");
    reveal_strlit("");
    assert(", ..."@.len() != ""@.len());
}

} // verus!

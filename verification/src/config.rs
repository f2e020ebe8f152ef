//! The list of repositories to mirror: one locator on a line, with tags behind it.

use crate::git_url::{local_dir_of, lemma_local_dir_of, GitUrl, IdentityError};
use crate::text::{same_text, split_at_whitespace, split_whitespace, views};
use vstd::prelude::*;

verus! {

/// One repository to mirror.
#[derive(Clone, Debug)]
pub struct Spec {
    pub url: GitUrl,
    /// Free-form labels, each once.
    pub tags: Vec<String>,
}

/// A line of the list that names no repository.
#[derive(Clone, Copy, Debug, PartialEq, Eq, Structural)]
pub struct ConfigError {
    /// The position of the line among the lines given, from 0.
    pub line: usize,
    pub cause: IdentityError,
}

/// The elements of `s`, each at its first place and once.
pub open spec fn distinct(s: Seq<Seq<char>>) -> Seq<Seq<char>>
    decreases s.len(),
{
    if s.len() == 0 {
        s
    } else if distinct(s.drop_last()).contains(s.last()) {
        distinct(s.drop_last())
    } else {
        distinct(s.drop_last()).push(s.last())
    }
}

/// The locator of a line: what stands before its first white space.
pub open spec fn locator_text(line: Seq<char>) -> Seq<char> {
    split_whitespace(line)[0]
}

/// The tags of a line: the pieces behind its locator, each once.
pub open spec fn tags_of(line: Seq<char>) -> Seq<Seq<char>> {
    distinct(split_whitespace(line).skip(1))
}

/// Whether a line is skipped (it is empty) or names a repository with a directory.
pub open spec fn line_accepted(line: Seq<char>) -> bool {
    line.len() == 0 || local_dir_of(locator_text(line)) is Ok
}

/// The predicate of the lines that are not skipped.
pub open spec fn filled() -> spec_fn(Seq<char>) -> bool {
    |line: Seq<char>| line.len() > 0
}

impl Spec {
    /// A repository has a directory name, and no tag twice.
    pub open spec fn wf(&self) -> bool {
        &&& self.url.wf()
        &&& self.url.spec_local_dir() is Ok
        &&& views(self.tags@).no_duplicates()
    }

    /// Whether this is the repository that `line` names.
    pub open spec fn reads(&self, line: Seq<char>) -> bool {
        &&& self.url.reads(locator_text(line))
        &&& views(self.tags@) == tags_of(line)
    }

    /// The locator as text.
    pub fn html_url(&self) -> (r: Result<&str, IdentityError>)
        ensures
            r matches Ok(s) && s@ == self.url.text(),
    {
        Ok(self.url.as_str())
    }
}

/// [`distinct`] keeps every element, and none twice.
pub proof fn lemma_distinct(s: Seq<Seq<char>>)
    ensures
        distinct(s).no_duplicates(),
        forall|x: Seq<char>| distinct(s).contains(x) <==> s.contains(x),
    decreases s.len(),
{
    if s.len() > 0 {
        let t = s.drop_last();
        lemma_distinct(t);
        let d = distinct(t);
        let ds = distinct(s);
        assert forall|x: Seq<char>| ds.contains(x) <==> s.contains(x) by {
            assert(d.contains(x) <==> t.contains(x));
            assert(s[s.len() - 1] == s.last());
            if t.contains(x) {
                let i = choose|i: int| 0 <= i < t.len() && t[i] == x;
                assert(s[i] == x);
            }
            if s.contains(x) && x != s.last() {
                let i = choose|i: int| 0 <= i < s.len() && s[i] == x;
                assert(t[i] == x);
            }
            if !d.contains(s.last()) {
                assert(ds[d.len() as int] == s.last());
                if d.contains(x) {
                    let j = choose|j: int| 0 <= j < d.len() && d[j] == x;
                    assert(ds[j] == x);
                }
                if ds.contains(x) && x != s.last() {
                    let j = choose|j: int| 0 <= j < ds.len() && ds[j] == x;
                    assert(d[j] == x);
                }
            }
        }
    }
}

/// Tells whether `tags` holds the text of `tag`.
fn has_tag(tags: &Vec<String>, tag: &str) -> (r: bool)
    ensures
        r == views(tags@).contains(tag@),
{
    let mut i: usize = 0;
    while i < tags.len()
        invariant
            i <= tags.len(),
            forall|j: int| 0 <= j < i ==> views(tags@)[j] != tag@,
        decreases tags.len() - i,
    {
        if same_text(tags[i].as_str(), tag) {
            proof {
                assert(views(tags@)[i as int] == tag@);
            }
            return true;
        }
        i = i + 1;
    }
    false
}

/// Reads one line that is not empty: the locator before the first white space, and the
/// tags behind it. The line is refused where the locator cannot be read or gives no
/// directory name.
pub fn parse_line(line: &str) -> (r: Result<Spec, IdentityError>)
    ensures
        r is Ok <==> local_dir_of(locator_text(line@)) is Ok,
        r matches Ok(spec) ==> spec.reads(line@) && spec.wf(),
        r matches Err(e) ==> local_dir_of(locator_text(line@)) == Err::<Seq<char>, IdentityError>(
            e,
        ),
{
    let fields = split_at_whitespace(line);
    proof {
        assert(split_whitespace(line@).len() > 0);
        assert(views(fields@)[0] == fields@[0]@);
    }
    let url = match GitUrl::parse(fields[0].as_str()) {
        Ok(url) => url,
        Err(e) => {
            return Err(e);
        },
    };
    proof {
        lemma_local_dir_of(url, locator_text(line@));
    }
    match url.local_dir() {
        Ok(_) => {},
        Err(e) => {
            return Err(e);
        },
    }
    let mut tags: Vec<String> = Vec::new();
    let mut i: usize = 1;
    proof {
        assert(views(fields@).skip(1).take(0) == Seq::<Seq<char>>::empty());
    }
    while i < fields.len()
        invariant
            1 <= i <= fields.len(),
            views(tags@) == distinct(views(fields@).skip(1).take(i - 1)),
        decreases fields.len() - i,
    {
        let tag = &fields[i];
        proof {
            let upto = views(fields@).skip(1).take(i as int);
            assert(upto.drop_last() == views(fields@).skip(1).take(i - 1));
            assert(upto.last() == tag@);
        }
        if !has_tag(&tags, tag.as_str()) {
            let owned = tag.clone();
            proof {
                assert(views(tags@.push(owned)) == views(tags@).push(tag@));
            }
            tags.push(owned);
        }
        i = i + 1;
    }
    proof {
        let rest = views(fields@).skip(1);
        assert(rest.take(fields.len() - 1) == rest);
        lemma_distinct(rest);
    }
    Ok(Spec { url, tags })
}

/// Reads the list: a repository for each line that is not empty, in the order of the
/// lines. The first line that is refused ends the reading, with its position and the
/// reason.
pub fn load(lines: &Vec<String>) -> (r: Result<Vec<Spec>, ConfigError>)
    ensures
        r is Ok <==> forall|j: int| 0 <= j < lines.len() ==> line_accepted(#[trigger] lines@[j]@),
        r matches Ok(specs) ==> specs.len() == views(lines@).filter(filled()).len(),
        r matches Ok(specs) ==> forall|k: int|
            0 <= k < specs.len() ==> (#[trigger] specs@[k]).reads(
                views(lines@).filter(filled())[k],
            ) && specs@[k].wf(),
        r matches Err(e) ==> e.line < lines.len() && !line_accepted(lines@[e.line as int]@)
            && local_dir_of(locator_text(lines@[e.line as int]@)) == Err::<
            Seq<char>,
            IdentityError,
        >(e.cause),
        r matches Err(e) ==> forall|j: int|
            0 <= j < e.line ==> line_accepted(#[trigger] lines@[j]@),
{
    let mut ret: Vec<Spec> = Vec::new();
    let mut i: usize = 0;
    proof {
        reveal(Seq::filter);
        assert(views(lines@).take(0).filter(filled()).len() == 0);
    }
    while i < lines.len()
        invariant
            i <= lines.len(),
            forall|j: int| 0 <= j < i ==> line_accepted(#[trigger] lines@[j]@),
            ret.len() == views(lines@).take(i as int).filter(filled()).len(),
            forall|k: int|
                0 <= k < ret.len() ==> (#[trigger] ret@[k]).reads(
                    views(lines@).take(i as int).filter(filled())[k],
                ) && ret@[k].wf(),
        decreases lines.len() - i,
    {
        let line = &lines[i];
        proof {
            reveal(Seq::filter);
            assert(views(lines@).take(i as int + 1).drop_last() == views(lines@).take(i as int));
            assert(views(lines@).take(i as int + 1).last() == line@);
        }
        if line.as_str().unicode_len() != 0 {
            match parse_line(line.as_str()) {
                Ok(spec) => {
                    ret.push(spec);
                },
                Err(cause) => {
                    return Err(ConfigError { line: i, cause });
                },
            }
        }
        i = i + 1;
    }
    proof {
        assert(views(lines@).take(lines.len() as int) == views(lines@));
    }
    Ok(ret)
}

} // verus!

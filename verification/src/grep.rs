//! Searching the files of a mirrored tree: which paths are looked into, which lines
//! match, and how a match is shown.

use crate::git_url::Provider;
use crate::text::{chars_of, decimal, push_decimal, string_of, trim_end, trimmed_len, views};
use vstd::prelude::*;

verus! {

/// `globset::Glob`: one glob pattern, parsed.
#[verifier::external_type_specification]
#[verifier::external_body]
pub struct ExGlob(globset::Glob);

/// `globset::GlobSetBuilder`: the globs that a set is to be built from.
#[verifier::external_type_specification]
#[verifier::external_body]
pub struct ExGlobSetBuilder(globset::GlobSetBuilder);

/// `globset::GlobSet`: globs that are matched against a path all at once.
#[verifier::external_type_specification]
#[verifier::external_body]
pub struct ExGlobSet(globset::GlobSet);

/// `globset::Error`: why a glob or a set of globs was refused. Nothing is read of it.
#[verifier::external_type_specification]
#[verifier::external_body]
pub struct ExGlobError(globset::Error);

/// `grep_regex::RegexMatcher`: a regular expression made ready for searching lines.
#[verifier::external_type_specification]
#[verifier::external_body]
pub struct ExRegexMatcher(grep_regex::RegexMatcher);

/// `grep_regex::Error`: why a pattern was refused. Nothing is read of it.
#[verifier::external_type_specification]
#[verifier::external_body]
pub struct ExMatcherError(grep_regex::Error);

/// `std::io::Error`: why a search did not come to its end. Nothing is read of it.
#[verifier::external_type_specification]
#[verifier::external_body]
pub struct ExIoError(std::io::Error);

/// Whether `globset::Glob::new` accepts `pattern`, a pattern without a backslash.
pub uninterp spec fn glob_valid(pattern: Seq<char>) -> bool;

/// What `globset::Glob::glob` gives: the pattern that the glob was made from.
pub uninterp spec fn glob_pattern(glob: globset::Glob) -> Seq<char>;

/// Whether the glob of `pattern`, with the options that `globset::Glob::new` gives it,
/// matches `path`, neither of them holding a backslash.
pub uninterp spec fn glob_matches(pattern: Seq<char>, path: Seq<char>) -> bool;

/// The patterns of the globs that were added to a builder, in the order of adding.
pub uninterp spec fn builder_globs(builder: globset::GlobSetBuilder) -> Seq<Seq<char>>;

/// The patterns of the globs that a set was built from.
pub uninterp spec fn set_globs(set: globset::GlobSet) -> Seq<Seq<char>>;

/// Whether `grep_regex::RegexMatcher::new` accepts `pattern`.
pub uninterp spec fn matcher_valid(pattern: Seq<char>) -> bool;

/// The pattern that a matcher was made from.
pub uninterp spec fn matcher_pattern(matcher: grep_regex::RegexMatcher) -> Seq<char>;

/// Whether `globset::GlobSetBuilder::build` makes a set of the globs of these patterns,
/// none of them holding a backslash.
pub uninterp spec fn set_builds(patterns: Seq<Seq<char>>) -> bool;

/// How a search of `content` with a new `grep_searcher::Searcher` ends for the regex of
/// `pattern`: `None` where the search fails, else what it hands to the sink `Lossy`: for
/// each matching line, in the order of the lines, its number from 1 and its text with
/// its line end, bytes that are no UTF-8 replaced.
pub uninterp spec fn matching_lines(pattern: Seq<char>, content: Seq<u8>) -> Option<
    Seq<(u64, Seq<char>)>,
>;

/// Whether a pattern or a path means the same on every platform: it holds no backslash,
/// which separates the parts of a path on some platforms and escapes a character of a
/// pattern on the others.
pub open spec fn portable(s: Seq<char>) -> bool {
    !s.contains('\\')
}

/// Whether each of the patterns is [`portable`].
pub open spec fn all_portable(globs: Seq<Seq<char>>) -> bool {
    forall|i: int| 0 <= i < globs.len() ==> portable(#[trigger] globs[i])
}

/// `globset::GlobSetBuilder::new`: a builder without globs.
#[verifier::external_body]
fn new_builder() -> (r: globset::GlobSetBuilder)
    ensures
        builder_globs(r).len() == 0,
{
    globset::GlobSetBuilder::new()
}

/// `globset::Glob::new`: the glob of `pattern`, where the pattern is accepted. Whether
/// a pattern with a backslash is accepted depends on the platform, and is left open.
#[verifier::external_body]
fn new_glob(pattern: &str) -> (r: Result<globset::Glob, globset::Error>)
    ensures
        portable(pattern@) ==> (r is Ok <==> glob_valid(pattern@)),
        r matches Ok(g) ==> glob_pattern(g) == pattern@,
{
    globset::Glob::new(pattern)
}

/// `globset::GlobSetBuilder::add`: the glob is added behind those that the builder holds.
#[verifier::external_body]
fn add_glob(builder: &mut globset::GlobSetBuilder, glob: globset::Glob)
    ensures
        builder_globs(*final(builder)) == builder_globs(*old(builder)).push(glob_pattern(glob)),
{
    builder.add(glob);
}

/// `globset::GlobSetBuilder::build`: the set of the globs added so far, where it can be
/// built; a builder without globs always gives the empty set. Whether a set is built of
/// globs with a backslash depends on the platform, and is left open.
#[verifier::external_body]
fn build_set(builder: &globset::GlobSetBuilder) -> (r: Result<globset::GlobSet, globset::Error>)
    ensures
        r matches Ok(set) ==> set_globs(set) == builder_globs(*builder),
        builder_globs(*builder).len() == 0 ==> r is Ok,
        all_portable(builder_globs(*builder)) ==> (r is Ok <==> set_builds(
            builder_globs(*builder),
        )),
{
    builder.build()
}

/// `globset::GlobSet::is_empty`: whether the set holds no glob.
#[verifier::external_body]
fn set_is_empty(set: &globset::GlobSet) -> (r: bool)
    ensures
        r == (set_globs(*set).len() == 0),
{
    set.is_empty()
}

/// `globset::GlobSet::is_match`: whether any glob of the set matches `path`; an empty
/// set matches nothing. What a backslash in a pattern or in the path means depends on
/// the platform, and is left open.
#[verifier::external_body]
fn set_is_match(set: &globset::GlobSet, path: &str) -> (r: bool)
    ensures
        set_globs(*set).len() == 0 ==> !r,
        portable(path@) && all_portable(set_globs(*set)) ==> r == (exists|i: int|
            0 <= i < set_globs(*set).len() && glob_matches(#[trigger] set_globs(*set)[i], path@)),
{
    set.is_match(path)
}

/// `grep_regex::RegexMatcher::new`: the matcher of `pattern`, where it is accepted.
#[verifier::external_body]
fn new_matcher(pattern: &str) -> (r: Result<grep_regex::RegexMatcher, grep_regex::Error>)
    ensures
        r is Ok <==> matcher_valid(pattern@),
        r matches Ok(m) ==> matcher_pattern(m) == pattern@,
{
    grep_regex::RegexMatcher::new(pattern)
}

/// `grep_searcher::Searcher::search_slice` of a new searcher, with the sink
/// `grep_searcher::sinks::Lossy`: the matching lines of `content`, or the failure of the
/// search; which of the two, the matcher and the content decide.
#[verifier::external_body]
fn search_slice(matcher: &grep_regex::RegexMatcher, content: &[u8]) -> (r: Result<
    Vec<(u64, String)>,
    std::io::Error,
>)
    ensures
        r matches Ok(hits) ==> matching_lines(matcher_pattern(*matcher), content@) == Some(
            hit_views(hits@),
        ),
        r is Err ==> matching_lines(matcher_pattern(*matcher), content@) is None,
{
    let mut hits = Vec::new();
    let sink = grep_searcher::sinks::Lossy(|lnum, line| Ok(note_hit(&mut hits, lnum, line)));
    grep_searcher::Searcher::new().search_slice(matcher, content, sink)?;
    Ok(hits)
}

/// Notes the matching line `line` with the number `lnum` behind the lines noted so far,
/// and asks for the search to go on.
pub fn note_hit(hits: &mut Vec<(u64, String)>, lnum: u64, line: &str) -> (r: bool)
    ensures
        r,
        hit_views(final(hits)@) == hit_views(old(hits)@).push((lnum, line@)),
{
    let text = line.to_owned();
    proof {
        assert(hit_views(hits@.push((lnum, text))) == hit_views(hits@).push((lnum, line@)));
    }
    hits.push((lnum, text));
    true
}

/// Why a search could not be made or did not come to its end.
#[derive(Debug)]
pub enum SearchError {
    /// A glob was refused, or the set of the globs could not be built.
    Glob(globset::Error),
    /// The pattern is no regular expression.
    Pattern(grep_regex::Error),
    /// The search of a file's content failed.
    Io(std::io::Error),
}

/// What an entry of a tree is.
#[derive(Clone, Copy, Debug, PartialEq, Eq, Structural)]
pub enum EntryKind {
    Blob,
    Tree,
    Commit,
    Other,
}

/// The views of matching lines.
pub open spec fn hit_views(hits: Seq<(u64, String)>) -> Seq<(u64, Seq<char>)> {
    hits.map_values(|h: (u64, String)| (h.0, h.1@))
}

/// Whether `globset::Glob::new` accepts each of the patterns.
pub open spec fn all_valid(globs: Seq<Seq<char>>) -> bool {
    forall|i: int| 0 <= i < globs.len() ==> glob_valid(#[trigger] globs[i])
}

/// Whether a path is looked into: every path where there are no globs, else one that
/// some glob matches.
pub open spec fn selected(globs: Seq<Seq<char>>, path: Seq<char>) -> bool {
    globs.len() == 0 || exists|i: int|
        0 <= i < globs.len() && glob_matches(#[trigger] globs[i], path)
}

/// A terminal hyperlink: `label` is shown, and leads to `url`.
pub open spec fn spec_href(label: Seq<char>, url: Seq<char>) -> Seq<char> {
    "\x1b]8;;"@ + url + "\x1b\\"@ + label + "\x1b]8;;\x1b\\"@
}

/// The path as it is shown: a link to the line on the provider's site where the
/// provider is known, else the plain path.
pub open spec fn display_path(provider: Option<Provider>, path: Seq<char>, lnum: u64) -> Seq<
    char,
> {
    match provider {
        Some(p) => spec_href(path, p.spec_browse_path(None, path, Some(lnum))),
        None => path,
    }
}

/// The line that reports one match: the mirror's directory and the path, the number of
/// the line, and the line without the white space at its end.
pub open spec fn match_line(
    prefix: Seq<char>,
    provider: Option<Provider>,
    path: Seq<char>,
    lnum: u64,
    line: Seq<char>,
) -> Seq<char> {
    prefix + "/"@ + display_path(provider, path, lnum) + " "@ + decimal(lnum as nat) + ": "@
        + trim_end(line)
}

/// The lines that report the matches of one file.
pub open spec fn match_lines(
    prefix: Seq<char>,
    provider: Option<Provider>,
    path: Seq<char>,
    hits: Seq<(u64, Seq<char>)>,
) -> Seq<Seq<char>> {
    hits.map_values(|h: (u64, Seq<char>)| match_line(prefix, provider, path, h.0, h.1))
}

/// The provider behind a reference that may be absent.
pub open spec fn provider_of(provider: Option<&Provider>) -> Option<Provider> {
    match provider {
        Some(p) => Some(*p),
        None => None,
    }
}

/// The set of the globs, for matching paths against all of them at once. A glob that is
/// refused fails the whole, and so does a set that cannot be built; without globs there
/// is always a set.
pub fn compile_globs(globs: &Vec<String>) -> (r: Result<globset::GlobSet, SearchError>)
    ensures
        r matches Ok(set) ==> set_globs(set) == views(globs@),
        r is Ok ==> forall|i: int|
            0 <= i < globs.len() && portable(#[trigger] globs@[i]@) ==> glob_valid(globs@[i]@),
        r matches Err(e) ==> e is Glob,
        globs.len() == 0 ==> r is Ok,
        all_portable(views(globs@)) ==> (r is Ok <==> all_valid(views(globs@)) && set_builds(
            views(globs@),
        )),
{
    let mut builder = new_builder();
    let mut i: usize = 0;
    while i < globs.len()
        invariant
            i <= globs.len(),
            builder_globs(builder) == views(globs@).take(i as int),
            forall|j: int| 0 <= j < i && portable(#[trigger] globs@[j]@) ==> glob_valid(globs@[j]@),
        decreases globs.len() - i,
    {
        match new_glob(globs[i].as_str()) {
            Ok(glob) => add_glob(&mut builder, glob),
            Err(e) => {
                proof {
                    assert(views(globs@)[i as int] == globs@[i as int]@);
                }
                return Err(SearchError::Glob(e));
            },
        }
        proof {
            assert(views(globs@).take(i as int + 1) == views(globs@).take(i as int).push(
                globs@[i as int]@,
            ));
        }
        i = i + 1;
    }
    proof {
        assert(views(globs@).take(globs.len() as int) == views(globs@));
        if all_portable(views(globs@)) {
            assert forall|j: int| 0 <= j < globs.len() implies glob_valid(
                #[trigger] views(globs@)[j],
            ) by {
                assert(portable(views(globs@)[j]));
                assert(views(globs@)[j] == globs@[j]@);
            }
        }
    }
    match build_set(&builder) {
        Ok(set) => Ok(set),
        Err(e) => Err(SearchError::Glob(e)),
    }
}

/// Tells whether the file at `path` is looked into: every file where the set is empty,
/// else one whose path some glob of the set matches.
pub fn path_selected(globs: &globset::GlobSet, path: &str) -> (r: bool)
    ensures
        set_globs(*globs).len() == 0 ==> r,
        portable(path@) && all_portable(set_globs(*globs)) ==> r == selected(
            set_globs(*globs),
            path@,
        ),
{
    set_is_empty(globs) || set_is_match(globs, path)
}

/// The matcher of the lines that `pattern` matches.
pub fn matcher(pattern: &str) -> (r: Result<grep_regex::RegexMatcher, SearchError>)
    ensures
        r is Ok <==> matcher_valid(pattern@),
        r matches Ok(m) ==> matcher_pattern(m) == pattern@,
        r matches Err(e) ==> e is Pattern,
{
    match new_matcher(pattern) {
        Ok(m) => Ok(m),
        Err(e) => Err(SearchError::Pattern(e)),
    }
}

impl EntryKind {
    /// Tells whether an entry of this kind is a file, whose content is searched; every
    /// other entry of a tree is passed over.
    pub fn is_file(self) -> (r: bool)
        ensures
            r == (self == EntryKind::Blob),
    {
        match self {
            EntryKind::Blob => true,
            _ => false,
        }
    }
}

/// The path of a file in its repository: the directory that the walk is in and the
/// entry's name. Only a blob with a name has one.
pub fn entry_path(kind: EntryKind, dir: &str, name: Option<&str>) -> (r: Option<String>)
    ensures
        r matches Some(p) ==> kind == EntryKind::Blob && (name matches Some(n) && p@ == dir@ + n@),
        r is None ==> kind != EntryKind::Blob || name is None,
{
    match (kind, name) {
        (EntryKind::Blob, Some(n)) => {
            let mut path = String::new();
            path.append(dir);
            path.append(n);
            Some(path)
        },
        _ => None,
    }
}

/// A terminal hyperlink: `label` is shown, and leads to `url`.
pub fn href(label: &str, url: &str) -> (r: String)
    ensures
        r@ == spec_href(label@, url@),
{
    let mut out = String::new();
    out.append("\x1b]8;;");
    out.append(url);
    out.append("\x1b\\");
    out.append(label);
    out.append("\x1b]8;;\x1b\\");
    out
}

/// The line that reports the match of line `lnum` of the file at `path`: the mirror's
/// directory, the path (as a link where the provider is known), the line's number, and
/// the line without the white space at its end.
pub fn format_match(prefix: &str, provider: Option<&Provider>, path: &str, lnum: u64, line: &str)
    -> (r: String)
    ensures
        r@ == match_line(prefix@, provider_of(provider), path@, lnum, line@),
{
    let mut out = String::new();
    out.append(prefix);
    out.append("/");
    match provider {
        Some(p) => {
            let url = p.html_browse_path(None, path, Some(lnum));
            let link = href(path, url.as_str());
            out.append(link.as_str());
        },
        None => {
            out.append(path);
        },
    }
    out.append(" ");
    push_decimal(&mut out, lnum);
    out.append(": ");
    let v = chars_of(line);
    let kept = string_of(&v, 0, trimmed_len(&v));
    proof {
        crate::text::lemma_trim_end(line@);
    }
    out.append(kept.as_str());
    out
}

/// The lines that report the matching lines `hits` of the file at `path`, in their
/// order.
pub fn format_matches(
    prefix: &str,
    provider: Option<&Provider>,
    path: &str,
    hits: &Vec<(u64, String)>,
) -> (r: Vec<String>)
    ensures
        views(r@) == match_lines(prefix@, provider_of(provider), path@, hit_views(hits@)),
{
    let mut out: Vec<String> = Vec::new();
    let mut i: usize = 0;
    while i < hits.len()
        invariant
            i <= hits.len(),
            views(out@) == match_lines(
                prefix@,
                provider_of(provider),
                path@,
                hit_views(hits@),
            ).take(i as int),
        decreases hits.len() - i,
    {
        let line = format_match(prefix, provider, path, hits[i].0, hits[i].1.as_str());
        proof {
            let all = match_lines(prefix@, provider_of(provider), path@, hit_views(hits@));
            assert(all.take(i as int + 1) == all.take(i as int).push(line@));
            assert(views(out@.push(line)) == views(out@).push(line@));
        }
        out.push(line);
        i = i + 1;
    }
    proof {
        let all = match_lines(prefix@, provider_of(provider), path@, hit_views(hits@));
        assert(all.take(hits.len() as int) == all);
    }
    out
}

/// Searches the content of the file at `path` and gives the lines that report its
/// matches, in the order of the file's lines; it fails exactly where the search does.
pub fn grep_blob(
    prefix: &str,
    provider: Option<&Provider>,
    matcher: &grep_regex::RegexMatcher,
    path: &str,
    content: &[u8],
) -> (r: Result<Vec<String>, SearchError>)
    ensures
        r is Ok <==> matching_lines(matcher_pattern(*matcher), content@) is Some,
        r matches Ok(lines) ==> views(lines@) == match_lines(
            prefix@,
            provider_of(provider),
            path@,
            matching_lines(matcher_pattern(*matcher), content@)->0,
        ),
        r matches Err(e) ==> e is Io,
{
    match search_slice(matcher, content) {
        Ok(hits) => Ok(format_matches(prefix, provider, path, &hits)),
        Err(e) => Err(SearchError::Io(e)),
    }
}

/// The lines that report the matches of a file that is looked into; `None` where the
/// search fails.
pub open spec fn matching_report(
    prefix: Seq<char>,
    provider: Option<Provider>,
    pattern: Seq<char>,
    path: Seq<char>,
    content: Seq<u8>,
) -> Option<Seq<Seq<char>>> {
    match matching_lines(pattern, content) {
        Some(hits) => Some(match_lines(prefix, provider, path, hits)),
        None => None,
    }
}

/// What a file adds to the report of a search: nothing where its path is not looked
/// into, else a line for each of its matching lines; `None` where the search fails.
pub open spec fn file_report(
    prefix: Seq<char>,
    provider: Option<Provider>,
    globs: Seq<Seq<char>>,
    pattern: Seq<char>,
    path: Seq<char>,
    content: Seq<u8>,
) -> Option<Seq<Seq<char>>> {
    if !selected(globs, path) {
        Some(Seq::empty())
    } else {
        matching_report(prefix, provider, pattern, path, content)
    }
}

/// Whether the meaning of the globs for the path is the same on every platform: there
/// are no globs, or neither they nor the path hold a backslash.
pub open spec fn filter_settled(globs: Seq<Seq<char>>, path: Seq<char>) -> bool {
    globs.len() == 0 || (portable(path) && all_portable(globs))
}

/// What the file at `path` adds to the report of a search: nothing where the globs leave
/// its path out, else the lines that report its matches, in the order of the file's
/// lines. It fails exactly where the file is looked into and the search fails.
pub fn grep_file(
    prefix: &str,
    provider: Option<&Provider>,
    globs: &globset::GlobSet,
    matcher: &grep_regex::RegexMatcher,
    path: &str,
    content: &[u8],
) -> (r: Result<Vec<String>, SearchError>)
    ensures
        filter_settled(set_globs(*globs), path@) ==> (r is Ok <==> file_report(
            prefix@,
            provider_of(provider),
            set_globs(*globs),
            matcher_pattern(*matcher),
            path@,
            content@,
        ) is Some),
        filter_settled(set_globs(*globs), path@) ==> (r matches Ok(lines) ==> Some(views(lines@))
            == file_report(
            prefix@,
            provider_of(provider),
            set_globs(*globs),
            matcher_pattern(*matcher),
            path@,
            content@,
        )),
        r matches Ok(lines) ==> lines@.len() == 0 || Some(views(lines@)) == matching_report(
            prefix@,
            provider_of(provider),
            matcher_pattern(*matcher),
            path@,
            content@,
        ),
        r matches Err(e) ==> e is Io && matching_lines(matcher_pattern(*matcher), content@)
            is None,
{
    if !path_selected(globs, path) {
        let none: Vec<String> = Vec::new();
        proof {
            assert(views(none@) == Seq::<Seq<char>>::empty());
        }
        Ok(none)
    } else {
        grep_blob(prefix, provider, matcher, path, content)
    }
}

/// A file whose path no glob matches adds nothing to the report, whatever it holds. A
/// file that is looked into adds one line for each of its matching lines, in their
/// order, each with the file's path and the number and text of that line.
pub proof fn lemma_file_report(
    prefix: Seq<char>,
    provider: Option<Provider>,
    globs: Seq<Seq<char>>,
    pattern: Seq<char>,
    path: Seq<char>,
    content: Seq<u8>,
)
    ensures
        !selected(globs, path) ==> file_report(prefix, provider, globs, pattern, path, content)
            == Some(Seq::<Seq<char>>::empty()),
        globs.len() == 1 ==> (selected(globs, path) <==> glob_matches(globs[0], path)),
        selected(globs, path) ==> (matching_lines(pattern, content) matches Some(hits)
            ==> file_report(prefix, provider, globs, pattern, path, content) matches Some(lines)
            && lines.len() == hits.len() && forall|k: int|
            0 <= k < hits.len() ==> #[trigger] lines[k] == match_line(
                prefix,
                provider,
                path,
                hits[k].0,
                hits[k].1,
            )),
{
}

/// The outcome of a walk over a tree: the first of the failures that were met, where
/// there was one; those after it are dropped.
pub fn first_error<E>(errors: Vec<E>) -> (r: Result<(), E>)
    ensures
        errors@.len() == 0 ==> r is Ok,
        errors@.len() > 0 ==> r == Err::<(), E>(errors@[0]),
{
    let mut errors = errors;
    if errors.len() == 0 {
        Ok(())
    } else {
        Err(errors.remove(0))
    }
}

} // verus!

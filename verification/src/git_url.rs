//! Repository locators: a URL or an SCP-style remote string, the directory name of its
//! mirror, and the hosting provider that it belongs to.

use crate::text::{
    after_last, chars_of, decimal, find_after_last, find_char, first_index, has_suffix, is_char,
    lemma_after_last, lemma_after_last_none, lemma_first_where, lemma_first_where_is,
    lemma_last_where_is, push_decimal, same_text, views,
};
use vstd::prelude::*;

verus! {

/// `url::ParseError`: why a text is no URL. Nothing is read of it.
#[verifier::external_type_specification]
#[verifier::external_body]
pub struct ExUrlParseError(url::ParseError);

/// `regex::Error`: why a pattern is no regular expression. Nothing is read of it.
#[verifier::external_type_specification]
#[verifier::external_body]
pub struct ExRegexError(regex::Error);

/// Whether `url::Url::parse` accepts `input` as an absolute URL.
pub uninterp spec fn url_valid(input: Seq<char>) -> bool;

/// What `url::Url::as_str` gives for the URL parsed from `input`: its serialization.
pub uninterp spec fn url_text(input: Seq<char>) -> Seq<char>;

/// What `url::Url::host_str` gives for the URL parsed from `input`.
pub uninterp spec fn url_host(input: Seq<char>) -> Option<Seq<char>>;

/// What `url::Url::path_segments` gives for the URL parsed from `input`.
pub uninterp spec fn url_segments(input: Seq<char>) -> Option<Seq<Seq<char>>>;

/// `regex::Regex`: a compiled regular expression.
#[verifier::external_type_specification]
#[verifier::external_body]
pub struct ExRegex(regex::Regex);

/// Whether `regex::Regex::new` accepts `pattern`.
pub uninterp spec fn regex_valid(pattern: Seq<char>) -> bool;

/// What `regex::Regex::as_str` gives: the pattern that the regex was made from.
pub uninterp spec fn regex_pattern(regex: regex::Regex) -> Seq<char>;

/// What `regex::Regex::captures` gives for the regex of `pattern` on `text`: `None` where
/// nothing matches, else the capture groups of the leftmost match by index, group 0 being
/// the whole match.
pub uninterp spec fn regex_captures(pattern: Seq<char>, text: Seq<char>) -> Option<
    Seq<Option<Seq<char>>>,
>;

/// Why a locator names no mirror.
#[derive(Clone, Copy, Debug, PartialEq, Eq, Structural)]
pub enum IdentityError {
    /// The text is no URL and holds no `:`.
    InvalidLocator,
    /// The directory name derived from the locator is empty.
    EmptyLocalDir,
}

/// What the logic reads of a parsed URL.
#[derive(Clone, Debug)]
pub struct ParsedUrl {
    /// The URL's serialization.
    pub text: String,
    /// Its host, where it has one.
    pub host: Option<String>,
    /// The segments of its path; `None` for a URL that cannot be a base.
    pub segments: Option<Vec<String>>,
}

impl ParsedUrl {
    pub open spec fn host_view(&self) -> Option<Seq<char>> {
        match self.host {
            Some(h) => Some(h@),
            None => None,
        }
    }

    pub open spec fn segments_view(&self) -> Option<Seq<Seq<char>>> {
        match self.segments {
            Some(v) => Some(views(v@)),
            None => None,
        }
    }

    /// The fields are those of the URL that the parser makes of `input`.
    pub open spec fn parsed_from(&self, input: Seq<char>) -> bool {
        &&& self.text@ == url_text(input)
        &&& self.host_view() == url_host(input)
        &&& self.segments_view() == url_segments(input)
    }
}

/// A repository locator.
#[derive(Clone, Debug)]
pub enum GitUrl {
    /// A locator that parses as a URL.
    Real(ParsedUrl),
    /// Any other text with a `:` in it, read as `host:path`.
    Ssh(String),
}

/// A hosting service that a locator belongs to.
#[derive(Clone, Debug)]
pub enum Provider {
    GithubCom { org: String, repo: String },
}

/// The compiled patterns by which the providers of SCP-style locators are known. They
/// are compiled once and serve every locator.
pub struct ProviderPatterns {
    github_ssh: regex::Regex,
}

/// The host name of the one known provider.
pub open spec fn github_host() -> Seq<char> {
    "github.com"@
}

/// The pattern that an SCP-style locator of the known provider matches.
pub open spec fn github_ssh_pattern() -> Seq<char> {
    "git@[^:/]*github.com:/?([^/]+)/([^/]+)"@
}

/// The suffix that a repository's directory may carry.
pub open spec fn git_suffix() -> Seq<char> {
    seq!['.', 'g', 'i', 't']
}

/// `s` without one `.git` at its end.
pub open spec fn without_git_suffix(s: Seq<char>) -> Seq<char> {
    if has_suffix(s, git_suffix()) {
        s.take(s.len() - 4)
    } else {
        s
    }
}

/// What follows the first `:` of `s`; all of `s` where it holds none.
pub open spec fn after_first_colon(s: Seq<char>) -> Seq<char> {
    if first_index(s, ':') < s.len() {
        s.skip(first_index(s, ':') + 1)
    } else {
        s
    }
}

/// Whether `s` can be read as a locator: it parses as a URL, or holds a colon.
pub open spec fn is_locator(s: Seq<char>) -> bool {
    url_valid(s) || s.contains(':')
}

/// Whether none of the segments holds a `/`.
pub open spec fn no_slashes(segments: Seq<Seq<char>>) -> bool {
    forall|i: int| 0 <= i < segments.len() ==> !(#[trigger] segments[i]).contains('/')
}

/// The name that the segments of a URL's path end with: what follows the last `/` of
/// the last segment, which is the whole of it where it holds none.
pub open spec fn last_segment(segments: Option<Seq<Seq<char>>>) -> Option<Seq<char>> {
    match segments {
        Some(v) => if v.len() > 0 {
            Some(after_last(v.last(), '/'))
        } else {
            None
        },
        None => None,
    }
}

/// The directory name of the mirror of the locator that `s` is read as.
pub open spec fn local_dir_of(s: Seq<char>) -> Result<Seq<char>, IdentityError> {
    if url_valid(s) {
        dir_of_base(last_segment(url_segments(s)))
    } else if s.contains(':') {
        dir_of_base(Some(after_last(after_first_colon(s), '/')))
    } else {
        Err(IdentityError::InvalidLocator)
    }
}

/// The directory name that a base name gives, or the error for an empty one.
pub open spec fn dir_of_base(base: Option<Seq<char>>) -> Result<Seq<char>, IdentityError> {
    match base {
        Some(b) => if without_git_suffix(b).len() > 0 {
            Ok(without_git_suffix(b))
        } else {
            Err(IdentityError::EmptyLocalDir)
        },
        None => Err(IdentityError::EmptyLocalDir),
    }
}

/// Organization and repository that the capture groups of a match give.
pub open spec fn provider_of_groups(groups: Option<Seq<Option<Seq<char>>>>) -> Option<
    (Seq<char>, Seq<char>),
> {
    match groups {
        Some(g) => if g.len() > 2 && g[1] is Some && g[2] is Some {
            Some((g[1]->0, without_git_suffix(g[2]->0)))
        } else {
            None
        },
        None => None,
    }
}

/// The views of the capture groups of a match.
pub open spec fn groups_view(r: Option<Vec<Option<String>>>) -> Option<Seq<Option<Seq<char>>>> {
    match r {
        Some(v) => Some(
            v@.map_values(
                |g: Option<String>|
                    match g {
                        Some(s) => Some(s@),
                        None => None,
                    },
            ),
        ),
        None => None,
    }
}

/// `url::Url::parse`, then of the URL it gives `as_str`, `host_str` and `path_segments`:
/// success is that of the parser, the fields are what the three accessors return, and a
/// path that has segments has at least one, none of them with a `/` in it, for they are
/// the pieces between the slashes.
#[verifier::external_body]
fn parse_url(input: &str) -> (r: Result<ParsedUrl, url::ParseError>)
    ensures
        r is Ok <==> url_valid(input@),
        r matches Ok(u) ==> u.text@ == url_text(input@),
        r matches Ok(u) ==> u.host_view() == url_host(input@),
        r matches Ok(u) ==> u.segments_view() == url_segments(input@),
        r matches Ok(u) ==> (u.segments matches Some(v) ==> v.len() > 0),
        r matches Ok(u) ==> (u.segments matches Some(v) ==> no_slashes(views(v@))),
{
    let u = url::Url::parse(input)?;
    Ok(
        ParsedUrl {
            text: u.as_str().to_string(),
            host: u.host_str().map(|h| h.to_string()),
            segments: u.path_segments().map(|p| p.map(|s| s.to_string()).collect()),
        },
    )
}

/// `regex::Regex::new`: the regex of `pattern`, where the pattern is accepted.
#[verifier::external_body]
fn new_regex(pattern: &str) -> (r: Result<regex::Regex, regex::Error>)
    ensures
        r is Ok <==> regex_valid(pattern@),
        r matches Ok(re) ==> regex_pattern(re) == pattern@,
{
    regex::Regex::new(pattern)
}

/// `regex::Regex::captures`, the groups read off with `Captures::iter`: the groups of
/// the leftmost match in `text`, or `None` where there is no match.
#[verifier::external_body]
fn captures(regex: &regex::Regex, text: &str) -> (r: Option<Vec<Option<String>>>)
    ensures
        groups_view(r) == regex_captures(regex_pattern(*regex), text@),
{
    let found = regex.captures(text)?;
    Some(found.iter().map(|m| m.map(|m| m.as_str().to_string())).collect())
}

/// What follows the first `:` of `ssh`: the host of such a locator ends at its first
/// colon, whatever follows.
pub fn strip_to_colon(ssh: &str) -> (r: &str)
    ensures
        r@ == after_first_colon(ssh@),
{
    let v = chars_of(ssh);
    let pos = find_char(&v, ':');
    if pos < v.len() {
        let r = ssh.substring_char(pos + 1, v.len());
        proof {
            assert(ssh@.subrange(pos + 1, v.len() as int) == ssh@.skip(pos + 1));
        }
        r
    } else {
        ssh
    }
}

/// `base_name` without one `.git` at its end.
pub fn strip_git(base_name: &str) -> (r: &str)
    ensures
        r@ == without_git_suffix(base_name@),
{
    let v = chars_of(base_name);
    let n = v.len();
    if n >= 4 && v[n - 4] == '.' && v[n - 3] == 'g' && v[n - 2] == 'i' && v[n - 1] == 't' {
        proof {
            assert(v@.skip(n - 4) == git_suffix());
        }
        base_name.substring_char(0, n - 4)
    } else {
        proof {
            if n >= 4 {
                let tail = v@.skip(n - 4);
                assert(tail[0] == v@[n - 4] && tail[1] == v@[n - 3] && tail[2] == v@[n - 2]
                    && tail[3] == v@[n - 1]);
                assert(git_suffix()[0] == '.' && git_suffix()[1] == 'g' && git_suffix()[2] == 'i'
                    && git_suffix()[3] == 't');
            }
        }
        base_name
    }
}

impl GitUrl {
    /// The locator as text.
    pub open spec fn text(&self) -> Seq<char> {
        match self {
            GitUrl::Real(u) => u.text@,
            GitUrl::Ssh(s) => s@,
        }
    }

    /// Whether this is the locator that `s` is read as.
    pub open spec fn reads(&self, s: Seq<char>) -> bool {
        if url_valid(s) {
            self matches GitUrl::Real(u) && u.parsed_from(s)
        } else {
            s.contains(':') && (self matches GitUrl::Ssh(t) && t@ == s)
        }
    }

    /// Every locator that [`GitUrl::parse`] returns is well formed: the path of a URL that
    /// has segments has at least one, and none of them holds a `/`.
    pub open spec fn wf(&self) -> bool {
        match self {
            GitUrl::Real(u) => (u.segments matches Some(v) ==> v.len() > 0 && no_slashes(
                views(v@),
            )),
            GitUrl::Ssh(s) => true,
        }
    }

    /// The name before `.git` is taken off: what follows the last `/` of the last segment
    /// of a URL's path (all of the segment, where the locator is well formed), or of what
    /// stands behind the first colon of an SCP-style locator.
    pub open spec fn base_name(&self) -> Option<Seq<char>> {
        match self {
            GitUrl::Real(u) => last_segment(u.segments_view()),
            GitUrl::Ssh(s) => Some(after_last(after_first_colon(s@), '/')),
        }
    }

    /// The name of the mirror's directory.
    pub open spec fn spec_local_dir(&self) -> Result<Seq<char>, IdentityError> {
        dir_of_base(self.base_name())
    }

    /// Organization and repository, where the locator belongs to the known provider.
    pub open spec fn spec_provider(&self) -> Option<(Seq<char>, Seq<char>)> {
        match self {
            GitUrl::Real(u) => match u.segments {
                Some(v) => if u.host_view() == Some(github_host()) && v.len() >= 2 {
                    Some((v@[0]@, without_git_suffix(v@[1]@)))
                } else {
                    None
                },
                None => None,
            },
            GitUrl::Ssh(s) => if regex_valid(github_ssh_pattern()) {
                provider_of_groups(regex_captures(github_ssh_pattern(), s@))
            } else {
                None
            },
        }
    }

    /// The locator that `s` is, given what the URL parser made of it: the URL where there
    /// is one, else an SCP-style locator where `s` holds a `:`, else nothing.
    pub fn from_parsed(s: &str, parsed: Option<ParsedUrl>) -> (r: Result<GitUrl, IdentityError>)
        ensures
            parsed matches Some(u) ==> r == Ok::<GitUrl, IdentityError>(GitUrl::Real(u)),
            parsed is None && s@.contains(':') ==> (r matches Ok(GitUrl::Ssh(t)) && t@ == s@),
            parsed is None && !s@.contains(':') ==> r == Err::<GitUrl, IdentityError>(
                IdentityError::InvalidLocator,
            ),
    {
        match parsed {
            Some(u) => Ok(GitUrl::Real(u)),
            None => {
                let v = chars_of(s);
                let pos = find_char(&v, ':');
                proof {
                    lemma_first_where(s@, is_char(':'));
                }
                if pos < v.len() {
                    Ok(GitUrl::Ssh(s.to_owned()))
                } else {
                    Err(IdentityError::InvalidLocator)
                }
            },
        }
    }

    /// Reads a locator: a URL where `s` parses as one, else an SCP-style locator where `s`
    /// holds a `:`, else nothing.
    pub fn parse(s: &str) -> (r: Result<GitUrl, IdentityError>)
        ensures
            r is Ok <==> is_locator(s@),
            r matches Ok(u) ==> u.reads(s@) && u.wf(),
            r is Err ==> r == Err::<GitUrl, IdentityError>(IdentityError::InvalidLocator),
    {
        match parse_url(s) {
            Ok(u) => GitUrl::from_parsed(s, Some(u)),
            Err(_) => GitUrl::from_parsed(s, None),
        }
    }

    /// The locator as text.
    pub fn as_str(&self) -> (r: &str)
        ensures
            r@ == self.text(),
    {
        match self {
            GitUrl::Real(u) => u.text.as_str(),
            GitUrl::Ssh(s) => s.as_str(),
        }
    }

    /// The name of the mirror's directory: the last segment of the locator's path without
    /// a `.git` at its end. An empty name is an error.
    pub fn local_dir(&self) -> (r: Result<&str, IdentityError>)
        ensures
            r matches Ok(d) ==> self.spec_local_dir() == Ok::<Seq<char>, IdentityError>(d@),
            r matches Err(e) ==> self.spec_local_dir() == Err::<Seq<char>, IdentityError>(e),
            r matches Ok(d) ==> d@.len() > 0 && !d@.contains('/'),
            r matches Err(e) ==> e == IdentityError::EmptyLocalDir,
    {
        let path: &str = match self {
            GitUrl::Real(u) => match &u.segments {
                Some(v) => {
                    if v.len() == 0 {
                        return Err(IdentityError::EmptyLocalDir);
                    }
                    proof {
                        assert(views(v@).last() == v@.last()@);
                    }
                    v[v.len() - 1].as_str()
                },
                None => {
                    return Err(IdentityError::EmptyLocalDir);
                },
            },
            GitUrl::Ssh(s) => strip_to_colon(s.as_str()),
        };
        let v = chars_of(path);
        let from = find_after_last(&v, '/');
        let base = path.substring_char(from, v.len());
        proof {
            assert(path@.subrange(from as int, v.len() as int) == path@.skip(from as int));
            lemma_dir_has_no_slash(path@);
        }
        let dir = strip_git(base);
        if dir.unicode_len() == 0 {
            Err(IdentityError::EmptyLocalDir)
        } else {
            Ok(dir)
        }
    }

    /// The hosting provider of the locator, where it is a known one: a URL whose host is
    /// `github.com` and whose path has two segments or more, or an SCP-style locator that
    /// the provider's pattern matches.
    pub fn provider(&self) -> (r: Option<Provider>)
        ensures
            r matches Some(p) ==> self.spec_provider() == Some(p.parts()),
            r is None ==> self.spec_provider() is None,
    {
        match self {
            GitUrl::Real(u) => provider_of_url(u),
            GitUrl::Ssh(_) => match ProviderPatterns::new() {
                Some(patterns) => patterns.provider(self),
                None => None,
            },
        }
    }
}

/// The provider of a URL: known where the host is `github.com` and the path's first two
/// segments name organization and repository.
pub fn provider_of_url(u: &ParsedUrl) -> (r: Option<Provider>)
    ensures
        r matches Some(p) ==> GitUrl::Real(*u).spec_provider() == Some(p.parts()),
        r is None ==> GitUrl::Real(*u).spec_provider() is None,
{
    let on_github = match &u.host {
        Some(h) => same_text(h.as_str(), "github.com"),
        None => false,
    };
    match &u.segments {
        Some(v) => {
            if on_github && v.len() >= 2 {
                Some(
                    Provider::GithubCom {
                        org: v[0].clone(),
                        repo: strip_git(v[1].as_str()).to_owned(),
                    },
                )
            } else {
                None
            }
        },
        None => None,
    }
}

/// The provider that the capture groups of a match of the provider's pattern give: the
/// first group is the organization, the second without `.git` the repository.
pub fn provider_of_captures(groups: &Option<Vec<Option<String>>>) -> (r: Option<Provider>)
    ensures
        r matches Some(p) ==> provider_of_groups(groups_view(*groups)) == Some(p.parts()),
        r is None ==> provider_of_groups(groups_view(*groups)) is None,
{
    match groups {
        Some(g) => {
            if g.len() > 2 {
                match (&g[1], &g[2]) {
                    (Some(org), Some(repo)) => Some(
                        Provider::GithubCom {
                            org: org.clone(),
                            repo: strip_git(repo.as_str()).to_owned(),
                        },
                    ),
                    _ => None,
                }
            } else {
                None
            }
        },
        None => None,
    }
}

impl ProviderPatterns {
    #[verifier::type_invariant]
    spec fn wf(self) -> bool {
        regex_valid(github_ssh_pattern()) && regex_pattern(self.github_ssh) == github_ssh_pattern()
    }

    /// Compiles the patterns. There are none where a pattern is refused.
    pub fn new() -> (r: Option<ProviderPatterns>)
        ensures
            r is Some <==> regex_valid(github_ssh_pattern()),
    {
        match new_regex("git@[^:/]*github.com:/?([^/]+)/([^/]+)") {
            Ok(github_ssh) => Some(ProviderPatterns { github_ssh }),
            Err(_) => None,
        }
    }

    /// The hosting provider of `url`, as [`GitUrl::provider`] gives it, without compiling
    /// anything anew.
    pub fn provider(&self, url: &GitUrl) -> (r: Option<Provider>)
        ensures
            r matches Some(p) ==> url.spec_provider() == Some(p.parts()),
            r is None ==> url.spec_provider() is None,
    {
        proof {
            use_type_invariant(self);
        }
        match url {
            GitUrl::Real(u) => provider_of_url(u),
            GitUrl::Ssh(s) => provider_of_captures(&captures(&self.github_ssh, s.as_str())),
        }
    }
}

impl Provider {
    /// Organization and repository.
    pub open spec fn parts(&self) -> (Seq<char>, Seq<char>) {
        match self {
            Provider::GithubCom { org, repo } => (org@, repo@),
        }
    }

    /// The address of the page that shows `path` on `branch`, at `line` where one is given.
    pub open spec fn spec_browse_path(
        &self,
        branch: Option<Seq<char>>,
        path: Seq<char>,
        line: Option<u64>,
    ) -> Seq<char> {
        let branch = match branch {
            Some(b) => b,
            None => "HEAD"@,
        };
        let anchor = match line {
            Some(n) => "#L"@ + decimal(n as nat),
            None => Seq::empty(),
        };
        "https://github.com/"@ + self.parts().0 + "/"@ + self.parts().1 + "/blob/"@ + branch
            + "/"@ + path + anchor
    }

    /// The address of the page that shows `path` on `branch` (on `HEAD` where none is
    /// given), with the anchor of `line` where one is given.
    pub fn html_browse_path(&self, branch: Option<&str>, path: &str, line: Option<u64>) -> (r:
        String)
        ensures
            r@ == self.spec_browse_path(
                match branch {
                    Some(b) => Some(b@),
                    None => None,
                },
                path@,
                line,
            ),
    {
        match self {
            Provider::GithubCom { org, repo } => {
                let mut out = String::new();
                out.append("https://github.com/");
                out.append(org.as_str());
                out.append("/");
                out.append(repo.as_str());
                out.append("/blob/");
                match branch {
                    Some(b) => out.append(b),
                    None => out.append("HEAD"),
                }
                out.append("/");
                out.append(path);
                match line {
                    Some(n) => {
                        out.append("#L");
                        push_decimal(&mut out, n);
                    },
                    None => {},
                }
                proof {
                    assert(out@ == self.spec_browse_path(
                        match branch {
                            Some(b) => Some(b@),
                            None => None,
                        },
                        path@,
                        line,
                    ));
                }
                out
            },
        }
    }
}

/// The directory name of a locator is a function of the text that it was read from.
pub proof fn lemma_local_dir_of(url: GitUrl, s: Seq<char>)
    requires
        url.reads(s),
    ensures
        url.spec_local_dir() == local_dir_of(s),
{
    match url {
        GitUrl::Real(u) => {},
        GitUrl::Ssh(t) => {},
    }
}

/// The directory name that comes of what follows the last `/` of a text holds no `/`.
pub proof fn lemma_dir_has_no_slash(path: Seq<char>)
    ensures
        dir_of_base(Some(after_last(path, '/'))) matches Ok(d) ==> d.len() > 0 && !d.contains(
            '/',
        ),
{
    let base = after_last(path, '/');
    lemma_after_last(path, '/');
    let d = without_git_suffix(base);
    if d.contains('/') {
        let j = choose|j: int| 0 <= j < d.len() && d[j] == '/';
        assert(base[j] == '/');
        assert(base.contains('/'));
    }
}

/// A well-formed URL whose path has segments is mirrored under the last of them, without
/// a `.git` at its end; where that leaves nothing there is no directory, so a directory
/// name is never empty, and it holds no `/`.
pub proof fn lemma_url_local_dir(url: GitUrl)
    requires
        url.wf(),
        url matches GitUrl::Real(u) && u.segments matches Some(v) && v.len() >= 1,
    ensures
        url.spec_local_dir() == dir_of_base(Some(url->Real_0.segments->0@.last()@)),
        url.spec_local_dir() matches Ok(d) ==> d.len() > 0 && !d.contains('/') && d
            == without_git_suffix(url->Real_0.segments->0@.last()@),
{
    let v = url->Real_0.segments->0;
    let last = v@.last()@;
    assert(views(v@).last() == last);
    lemma_after_last_none(last, '/');
    lemma_dir_has_no_slash(last);
}

/// The directory name of any locator is not empty and holds no `/`.
pub proof fn lemma_local_dir_is_a_name(url: GitUrl)
    ensures
        url.spec_local_dir() matches Ok(d) ==> d.len() > 0 && !d.contains('/'),
{
    match url {
        GitUrl::Real(u) => {
            match u.segments {
                Some(v) => {
                    if v.len() > 0 {
                        lemma_dir_has_no_slash(views(v@).last());
                    }
                },
                None => {},
            }
        },
        GitUrl::Ssh(t) => {
            lemma_dir_has_no_slash(after_first_colon(t@));
        },
    }
}

/// An SCP-style locator `user@host:dirs/name`, with no colon in `user` and `host` and no
/// slash in `name`, is mirrored under `name` without a `.git` at its end, whatever `dirs`
/// holds: the host ends at the first colon, and a slash right after it changes nothing.
pub proof fn lemma_scp_local_dir(
    url: GitUrl,
    user: Seq<char>,
    host: Seq<char>,
    dirs: Seq<char>,
    name: Seq<char>,
)
    requires
        url matches GitUrl::Ssh(t) && t@ == user + seq!['@'] + host + seq![':'] + dirs + seq!['/']
            + name,
        !user.contains(':'),
        !host.contains(':'),
        !name.contains('/'),
        without_git_suffix(name).len() > 0,
    ensures
        url.spec_local_dir() == Ok::<Seq<char>, IdentityError>(without_git_suffix(name)),
{
    let t = url->Ssh_0@;
    let head = user + seq!['@'] + host;
    let tail = dirs + seq!['/'] + name;
    assert(t == head + seq![':'] + tail);
    assert forall|j: int| 0 <= j < head.len() implies !is_char(':')(#[trigger] t[j]) by {
        if j < user.len() {
            assert(user.contains(t[j]));
        } else if j > user.len() {
            assert(t[j] == host[j - user.len() - 1]);
            assert(host.contains(t[j]));
        }
    }
    lemma_first_where_is(t, is_char(':'), head.len() as int);
    assert(t.skip(head.len() as int + 1) == tail);
    assert forall|j: int| dirs.len() < j < tail.len() implies !is_char('/')(#[trigger] tail[j]) by {
        assert(tail[j] == name[j - dirs.len() - 1]);
        assert(name.contains(tail[j]));
    }
    lemma_last_where_is(tail, is_char('/'), dirs.len() as int);
    assert(tail.skip(dirs.len() as int + 1) == name);
}

/// Taking `.git` off a name that was given that suffix gives the name back.
pub proof fn lemma_git_suffix_stripped(name: Seq<char>)
    ensures
        without_git_suffix(name + git_suffix()) == name,
{
    let s = name + git_suffix();
    assert(s.skip(s.len() - 4) == git_suffix());
    assert(s.take(s.len() - 4) == name);
}

/// A URL on any host but `github.com` has no provider, and neither has an SCP-style
/// locator that the provider's pattern does not match.
pub proof fn lemma_provider_needs_github(url: GitUrl)
    requires
        match url {
            GitUrl::Real(u) => u.host_view() != Some(github_host()),
            GitUrl::Ssh(t) => regex_captures(github_ssh_pattern(), t@) is None,
        },
    ensures
        url.spec_provider() is None,
{
}

impl std::str::FromStr for GitUrl {
    type Err = IdentityError;

    fn from_str(s: &str) -> (r: Result<GitUrl, IdentityError>)
        ensures
            r is Ok <==> is_locator(s@),
            r matches Ok(u) ==> u.reads(s@) && u.wf(),
            r is Err ==> r == Err::<GitUrl, IdentityError>(IdentityError::InvalidLocator),
    {
        GitUrl::parse(s)
    }
}

} // verus!

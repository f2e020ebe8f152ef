//! Where the mirrors and what is known of them are kept on disk.

use crate::text::{chars_of, views};
use vstd::prelude::*;

verus! {

/// What `char::is_alphanumeric` returns: whether `c` is a letter or a number, as Unicode
/// classes them.
pub uninterp spec fn alphanumeric(c: char) -> bool;

/// `char::is_alphanumeric`.
#[verifier::external_body]
fn is_alphanumeric(c: char) -> (r: bool)
    ensures
        r == alphanumeric(c),
{
    c.is_alphanumeric()
}

/// The lower-case form of an upper-case ASCII letter; any other character itself.
pub open spec fn ascii_lower(c: char) -> char {
    if 'A' <= c <= 'Z' {
        ((c as u8) + 32) as char
    } else {
        c
    }
}

/// The character that stands for `c` in a directory name, given whether `c` is a letter
/// or a number: `c` in lower case where it is one or is a hyphen, and an underscore for
/// all else.
pub open spec fn safe_char_given(c: char, alphanumeric: bool) -> char {
    if alphanumeric || c == '-' {
        ascii_lower(c)
    } else {
        '_'
    }
}

/// The character that stands for `c` in a directory name.
pub open spec fn safe_char(c: char) -> char {
    safe_char_given(c, alphanumeric(c))
}

/// `path` with each of its characters replaced by its [`safe_char`].
pub open spec fn safe_component(path: Seq<char>) -> Seq<char> {
    path.map_values(|c: char| safe_char(c))
}

/// The name under which the application keeps its files.
pub open spec fn cache_dir_name() -> Seq<char> {
    ".cache"@
}

/// The character that stands for `c` in a directory name, given whether `c` is a letter
/// or a number.
pub fn safe_char_for(c: char, alphanumeric: bool) -> (r: char)
    ensures
        r == safe_char_given(c, alphanumeric),
{
    if alphanumeric || c == '-' {
        if 'A' <= c && c <= 'Z' {
            let b: u8 = c as u8;
            (b + 32) as char
        } else {
            c
        }
    } else {
        '_'
    }
}

/// A name that can stand as one component of a path: every character of `path` that is
/// no letter, number or hyphen becomes an underscore, and ASCII letters become lower
/// case.
pub fn fs_safe_component(path: &str) -> (r: String)
    ensures
        r@ == safe_component(path@),
{
    let v = chars_of(path);
    let mut out = String::new();
    let mut i: usize = 0;
    while i < v.len()
        invariant
            i <= v.len(),
            v@ == path@,
            out@ == safe_component(path@).take(i as int),
        decreases v.len() - i,
    {
        let c = v[i];
        let kept = safe_char_for(c, is_alphanumeric(c));
        out.push(kept);
        proof {
            assert(safe_component(path@).take(i as int + 1) == safe_component(path@).take(
                i as int,
            ).push(kept));
        }
        i = i + 1;
    }
    proof {
        assert(safe_component(path@).take(v.len() as int) == safe_component(path@));
    }
    out
}

/// Why no place for the cache was found.
#[derive(Clone, Copy, Debug, PartialEq, Eq, Structural)]
pub enum CacheError {
    /// Neither a cache directory nor a home directory is known.
    NoHome,
}

/// The directory under which mirrors and metadata are kept, as the components of its
/// path.
#[derive(Clone, Debug)]
pub struct Cache {
    root: Vec<String>,
}

/// The root that the known directories give: the project's cache directory where there
/// is one, else `.cache` and the application's name under the home directory.
pub open spec fn root_of(
    project_cache: Option<Seq<char>>,
    home: Option<Seq<char>>,
    name: Seq<char>,
) -> Option<Seq<Seq<char>>> {
    match project_cache {
        Some(dir) => Some(seq![dir]),
        None => match home {
            Some(h) => Some(seq![h, cache_dir_name(), name]),
            None => None,
        },
    }
}

/// The view of a string that may be absent.
pub open spec fn text_of(s: Option<String>) -> Option<Seq<char>> {
    match s {
        Some(t) => Some(t@),
        None => None,
    }
}

impl Cache {
    /// The components of the root's path.
    pub closed spec fn root(&self) -> Seq<Seq<char>> {
        views(self.root@)
    }

    /// The cache under the project's cache directory where the platform names one, else
    /// under `.cache` in the home directory; without either there is none.
    pub fn new(project_cache: Option<String>, home: Option<String>, name: &str) -> (r: Result<
        Cache,
        CacheError,
    >)
        ensures
            r matches Ok(c) ==> root_of(text_of(project_cache), text_of(home), name@) == Some(
                c.root(),
            ),
            r is Err ==> r == Err::<Cache, CacheError>(CacheError::NoHome) && root_of(
                text_of(project_cache),
                text_of(home),
                name@,
            ) is None,
    {
        let mut root: Vec<String> = Vec::new();
        match project_cache {
            Some(dir) => {
                root.push(dir);
                proof {
                    assert(views(root@) == seq![dir@]);
                }
            },
            None => match home {
                Some(h) => {
                    root.push(h);
                    root.push(".cache".to_owned());
                    root.push(name.to_owned());
                    proof {
                        assert(views(root@) == seq![h@, cache_dir_name(), name@]);
                    }
                },
                None => {
                    return Err(CacheError::NoHome);
                },
            },
        }
        Ok(Cache { root })
    }

    /// The components of the root's path.
    pub fn root_path(&self) -> (r: Vec<String>)
        ensures
            views(r@) == self.root(),
    {
        self.root.clone()
    }

    /// The path of the directory that holds what is known of the organization `org`: the
    /// root, `meta/github`, and the organization's safe name.
    pub fn meta_github_org(&self, org: &str) -> (r: Vec<String>)
        ensures
            views(r@) == self.root() + seq!["meta/github"@, safe_component(org@)],
    {
        let mut path = self.root.clone();
        let meta = "meta/github".to_owned();
        let safe = fs_safe_component(org);
        proof {
            assert(views(path@.push(meta).push(safe)) == views(path@) + seq![meta@, safe@]);
        }
        path.push(meta);
        path.push(safe);
        path
    }

    /// The path of the bare mirror of the repository `repo` of `org`: the root, `repos`,
    /// the organization's safe name, and the repository's safe name with `.git`.
    pub fn repo_bare(&self, org: &str, repo: &str) -> (r: Vec<String>)
        ensures
            views(r@) == self.root() + seq![
                "repos"@,
                safe_component(org@),
                safe_component(repo@) + ".git"@,
            ],
    {
        let mut path = self.root.clone();
        let repos = "repos".to_owned();
        let safe_org = fs_safe_component(org);
        let mut dir = fs_safe_component(repo);
        dir.append(".git");
        proof {
            assert(views(path@.push(repos).push(safe_org).push(dir)) == views(path@) + seq![
                repos@,
                safe_org@,
                dir@,
            ]);
        }
        path.push(repos);
        path.push(safe_org);
        path.push(dir);
        path
    }
}

} // verus!

use std::str::FromStr;

use gitgeoff::git_url::{
    provider_of_captures, provider_of_url, strip_git, strip_to_colon, GitUrl, IdentityError,
    ParsedUrl, Provider, ProviderPatterns,
};

#[test]
fn get_local_dir() -> Result<(), IdentityError> {
    assert_eq!(
        "gitgeoff",
        GitUrl::from_str("https://github.com/FauxFaux/gitgeoff")?.local_dir()?
    );
    assert_eq!(
        "gitgeoff",
        GitUrl::from_str("https://github.com/FauxFaux/gitgeoff.git")?.local_dir()?
    );
    assert_eq!(
        "gitgeoff",
        GitUrl::from_str("git@github.com:FauxFaux/gitgeoff")?.local_dir()?
    );
    assert_eq!(
        "gitgeoff",
        GitUrl::from_str("git@github.com:FauxFaux/gitgeoff.git")?.local_dir()?
    );
    assert_eq!(
        "gitgeoff",
        GitUrl::from_str("git@github.com:/FauxFaux/gitgeoff.git")?.local_dir()?
    );
    Ok(())
}

#[test]
fn get_provider() -> Result<(), IdentityError> {
    assert_eq!(
        "https://github.com/FauxFaux/gitgeoff/blob/HEAD/foo/bar.txt#L7",
        GitUrl::from_str("git@github.com:/FauxFaux/gitgeoff.git")?
            .provider()
            .unwrap()
            .html_browse_path(None, "foo/bar.txt", Some(7))
    );
    Ok(())
}

#[test]
fn broken_cases() -> Result<(), IdentityError> {
    GitUrl::from_str("gh:FauxFaux/gitgeoff.git")?;
    Ok(())
}

#[test]
fn scheme_without_slashes_has_no_directory() {
    let url = GitUrl::parse("gh:FauxFaux/gitgeoff.git").unwrap();
    assert!(matches!(url, GitUrl::Real(_)));
    assert_eq!(url.local_dir(), Err(IdentityError::EmptyLocalDir));
    assert!(url.provider().is_none());
}

fn org_and_repo(locator: &str) -> Option<(String, String)> {
    match GitUrl::parse(locator).unwrap().provider() {
        Some(Provider::GithubCom { org, repo }) => Some((org, repo)),
        None => None,
    }
}

#[test]
fn url_is_read_as_url() {
    match GitUrl::parse("https://github.com/Org/Repo.git").unwrap() {
        GitUrl::Real(u) => {
            assert_eq!(u.text, "https://github.com/Org/Repo.git");
            assert_eq!(u.host, Some("github.com".to_string()));
            assert_eq!(
                u.segments,
                Some(vec!["Org".to_string(), "Repo.git".to_string()])
            );
        }
        GitUrl::Ssh(_) => panic!("a URL was read as an SCP-style locator"),
    }
}

#[test]
fn url_without_path_has_one_empty_segment() {
    match GitUrl::parse("https://example.com").unwrap() {
        GitUrl::Real(u) => {
            assert_eq!(u.text, "https://example.com/");
            assert_eq!(u.segments, Some(vec![String::new()]));
        }
        GitUrl::Ssh(_) => panic!("a URL was read as an SCP-style locator"),
    }
}

#[test]
fn scp_style_is_kept_as_text() {
    let url = GitUrl::parse("git@github.com:Org/Repo.git").unwrap();
    assert!(matches!(url, GitUrl::Ssh(_)));
    assert_eq!(url.as_str(), "git@github.com:Org/Repo.git");
}

#[test]
fn text_without_colon_is_refused() {
    assert_eq!(
        GitUrl::parse("nothing here").err(),
        Some(IdentityError::InvalidLocator)
    );
    assert_eq!(GitUrl::parse("").err(), Some(IdentityError::InvalidLocator));
    assert_eq!(
        GitUrl::from_str("FauxFaux/gitgeoff").err(),
        Some(IdentityError::InvalidLocator)
    );
}

#[test]
fn local_dir_of_url_is_last_segment() {
    let url = GitUrl::parse("https://github.com/Org/Repo.git").unwrap();
    assert_eq!(url.local_dir(), Ok("Repo"));
    let url = GitUrl::parse("https://example.com/a/b/c/deep").unwrap();
    assert_eq!(url.local_dir(), Ok("deep"));
    let url = GitUrl::parse("https://example.com/one").unwrap();
    assert_eq!(url.local_dir(), Ok("one"));
}

#[test]
fn local_dir_is_never_empty() {
    let url = GitUrl::parse("https://github.com/").unwrap();
    assert_eq!(url.local_dir(), Err(IdentityError::EmptyLocalDir));
    let url = GitUrl::parse("https://github.com/Org/").unwrap();
    assert_eq!(url.local_dir(), Err(IdentityError::EmptyLocalDir));
    let url = GitUrl::parse("https://github.com/Org/.git").unwrap();
    assert_eq!(url.local_dir(), Err(IdentityError::EmptyLocalDir));
    let url = GitUrl::parse("git@github.com:").unwrap();
    assert_eq!(url.local_dir(), Err(IdentityError::EmptyLocalDir));
    let url = GitUrl::parse("git@github.com:Org/").unwrap();
    assert_eq!(url.local_dir(), Err(IdentityError::EmptyLocalDir));
    let url = GitUrl::parse("mailto:someone@example.com").unwrap();
    assert_eq!(url.local_dir(), Err(IdentityError::EmptyLocalDir));
}

#[test]
fn host_ends_at_first_colon() {
    let url = GitUrl::parse("user@example.com:1337:foo").unwrap();
    assert!(matches!(url, GitUrl::Ssh(_)));
    assert_eq!(url.local_dir(), Ok("1337:foo"));
    let url = GitUrl::parse("user@example.com:dir:x/name.git").unwrap();
    assert_eq!(url.local_dir(), Ok("name"));
    let url = GitUrl::parse("user@example.com:name").unwrap();
    assert_eq!(url.local_dir(), Ok("name"));
}

#[test]
fn suffix_is_taken_off_once() {
    let url = GitUrl::parse("git@host:org/repo.git.git").unwrap();
    assert_eq!(url.local_dir(), Ok("repo.git"));
    assert_eq!(strip_git("repo.git"), "repo");
    assert_eq!(strip_git("repo"), "repo");
    assert_eq!(strip_git(".git"), "");
    assert_eq!(strip_git("git"), "git");
    assert_eq!(strip_git("a.gitt"), "a.gitt");
    assert_eq!(strip_git(""), "");
}

#[test]
fn strip_to_colon_drops_the_host() {
    assert_eq!(strip_to_colon("git@github.com:Org/Repo"), "Org/Repo");
    assert_eq!(strip_to_colon("a:b:c"), "b:c");
    assert_eq!(strip_to_colon("no colon"), "no colon");
    assert_eq!(strip_to_colon("end:"), "");
    assert_eq!(strip_to_colon(":start"), "start");
}

#[test]
fn provider_of_github_locators() {
    assert_eq!(
        org_and_repo("https://github.com/Org/Repo"),
        Some(("Org".to_string(), "Repo".to_string()))
    );
    assert_eq!(
        org_and_repo("git@github.com:Org/Repo.git"),
        Some(("Org".to_string(), "Repo".to_string()))
    );
    assert_eq!(
        org_and_repo("https://github.com/Org/Repo.git"),
        Some(("Org".to_string(), "Repo".to_string()))
    );
    assert_eq!(
        org_and_repo("git@github.com:/Org/Repo"),
        Some(("Org".to_string(), "Repo".to_string()))
    );
    assert_eq!(
        org_and_repo("https://github.com/Org/Repo/tree/main"),
        Some(("Org".to_string(), "Repo".to_string()))
    );
}

#[test]
fn no_provider_for_other_hosts() {
    assert_eq!(org_and_repo("https://gitlab.com/Org/Repo"), None);
    assert_eq!(org_and_repo("https://example.com/github.com/Repo"), None);
    assert_eq!(org_and_repo("git@gitlab.com:Org/Repo.git"), None);
    assert_eq!(org_and_repo("git@bitbucket.org:Org/Repo"), None);
    assert_eq!(org_and_repo("user@github.com:Org/Repo"), None);
}

#[test]
fn no_provider_without_two_segments() {
    assert_eq!(org_and_repo("https://github.com/Org"), None);
    assert_eq!(org_and_repo("https://github.com/"), None);
    assert_eq!(org_and_repo("git@github.com:Repo"), None);
}

#[test]
fn browse_path_forms() {
    let provider = Provider::GithubCom {
        org: "Org".to_string(),
        repo: "Repo".to_string(),
    };
    assert_eq!(
        provider.html_browse_path(None, "src/main.rs", None),
        "https://github.com/Org/Repo/blob/HEAD/src/main.rs"
    );
    assert_eq!(
        provider.html_browse_path(Some("main"), "src/main.rs", Some(120)),
        "https://github.com/Org/Repo/blob/main/src/main.rs#L120"
    );
    assert_eq!(
        provider.html_browse_path(Some("dev"), "a", Some(0)),
        "https://github.com/Org/Repo/blob/dev/a#L0"
    );
    assert_eq!(
        provider.html_browse_path(None, "a", Some(u64::MAX)),
        "https://github.com/Org/Repo/blob/HEAD/a#L18446744073709551615"
    );
}

#[test]
fn compiled_patterns_serve_every_locator() {
    let patterns = ProviderPatterns::new().unwrap();
    for locator in [
        "git@github.com:Org/Repo.git",
        "git@ssh.github.com:/Org/Repo",
        "https://github.com/Org/Repo",
    ] {
        let url = GitUrl::parse(locator).unwrap();
        match patterns.provider(&url) {
            Some(Provider::GithubCom { org, repo }) => {
                assert_eq!(org, "Org");
                assert_eq!(repo, "Repo");
            }
            None => panic!("no provider for {}", locator),
        }
    }
    for locator in ["git@gitlab.com:Org/Repo.git", "https://gitlab.com/Org/Repo"] {
        let url = GitUrl::parse(locator).unwrap();
        assert!(patterns.provider(&url).is_none());
    }
}

fn parsed(host: Option<&str>, segments: Option<&[&str]>) -> ParsedUrl {
    ParsedUrl {
        text: String::new(),
        host: host.map(|h| h.to_string()),
        segments: segments.map(|v| v.iter().map(|s| s.to_string()).collect()),
    }
}

fn parts(provider: Option<Provider>) -> Option<(String, String)> {
    match provider {
        Some(Provider::GithubCom { org, repo }) => Some((org, repo)),
        None => None,
    }
}

#[test]
fn locator_from_what_the_parser_made() {
    let url = parsed(Some("example.com"), Some(&["a", "b.git"]));
    match GitUrl::from_parsed("anything", Some(url)) {
        Ok(GitUrl::Real(u)) => assert_eq!(u.host, Some("example.com".to_string())),
        _ => panic!("the parsed URL was not kept"),
    }
    match GitUrl::from_parsed("host:path", None) {
        Ok(GitUrl::Ssh(text)) => assert_eq!(text, "host:path"),
        _ => panic!("a text with a colon was not kept"),
    }
    assert_eq!(
        GitUrl::from_parsed("host path", None).err(),
        Some(IdentityError::InvalidLocator)
    );
}

#[test]
fn provider_of_parsed_urls() {
    assert_eq!(
        parts(provider_of_url(&parsed(
            Some("github.com"),
            Some(&["Org", "Repo.git", "more"])
        ))),
        Some(("Org".to_string(), "Repo".to_string()))
    );
    assert_eq!(
        parts(provider_of_url(&parsed(Some("github.com"), Some(&["", ""])))),
        Some((String::new(), String::new()))
    );
    assert_eq!(
        parts(provider_of_url(&parsed(Some("github.com"), Some(&["Org"])))),
        None
    );
    assert_eq!(
        parts(provider_of_url(&parsed(Some("github.com"), None))),
        None
    );
    assert_eq!(
        parts(provider_of_url(&parsed(None, Some(&["Org", "Repo"])))),
        None
    );
    assert_eq!(
        parts(provider_of_url(&parsed(
            Some("notgithub.com"),
            Some(&["Org", "Repo"])
        ))),
        None
    );
    assert_eq!(
        parts(provider_of_url(&parsed(
            Some("www.github.com"),
            Some(&["Org", "Repo"])
        ))),
        None
    );
}

#[test]
fn provider_of_capture_groups() {
    let group = |s: &str| Some(s.to_string());
    assert_eq!(
        parts(provider_of_captures(&Some(vec![
            group("git@github.com:Org/Repo.git"),
            group("Org"),
            group("Repo.git"),
        ]))),
        Some(("Org".to_string(), "Repo".to_string()))
    );
    assert_eq!(parts(provider_of_captures(&None)), None);
    assert_eq!(
        parts(provider_of_captures(&Some(vec![group("all"), group("Org")]))),
        None
    );
    assert_eq!(
        parts(provider_of_captures(&Some(vec![
            group("all"),
            None,
            group("Repo")
        ]))),
        None
    );
    assert_eq!(
        parts(provider_of_captures(&Some(vec![
            group("all"),
            group("Org"),
            None
        ]))),
        None
    );
}

#[test]
fn directory_name_holds_no_slash() {
    let url = GitUrl::Real(parsed(Some("example.com"), Some(&["a", "b/c.git"])));
    assert_eq!(url.local_dir(), Ok("c"));
    let url = GitUrl::Real(parsed(Some("example.com"), Some(&["a", "b/"])));
    assert_eq!(url.local_dir(), Err(IdentityError::EmptyLocalDir));
    let url = GitUrl::Real(parsed(Some("example.com"), Some(&[])));
    assert_eq!(url.local_dir(), Err(IdentityError::EmptyLocalDir));
    for locator in [
        "https://example.com/a/b/c.git",
        "https://example.com/a%2Fb",
        "git@host:a/b/c",
        "git@host:/x",
        "user@host:a:b/c/d.git",
    ] {
        let url = GitUrl::parse(locator).unwrap();
        let dir = url.local_dir().unwrap();
        assert!(!dir.is_empty());
        assert!(!dir.contains('/'));
    }
}

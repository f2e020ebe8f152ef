use gitgeoff::cache::{fs_safe_component, safe_char_for, Cache, CacheError};

fn strings(parts: &[&str]) -> Vec<String> {
    parts.iter().map(|s| s.to_string()).collect()
}

#[test]
fn safe_components() {
    assert_eq!(fs_safe_component("FauxFaux"), "fauxfaux");
    assert_eq!(fs_safe_component("my-repo"), "my-repo");
    assert_eq!(fs_safe_component("a/b\\c d.e"), "a_b_c_d_e");
    assert_eq!(fs_safe_component("../.."), "_____");
    assert_eq!(fs_safe_component("Repo_1"), "repo_1");
    assert_eq!(fs_safe_component(""), "");
    assert_eq!(fs_safe_component("ÉCOLE-9"), "École-9");
}

#[test]
fn safe_component_is_that_of_std() {
    let texts = [
        "Hello, World!",
        "ÄÖü-ß",
        "a\u{0}b",
        "x\u{3000}y",
        "ⅧⅨ",
        "٣٤",
        "A-Z_a-z",
    ];
    for text in texts {
        let expected = text
            .replace(|c: char| !(c.is_alphanumeric() || c == '-'), "_")
            .to_ascii_lowercase();
        assert_eq!(fs_safe_component(text), expected);
    }
}

#[test]
fn root_is_the_project_cache_dir() {
    let cache = Cache::new(
        Some("/home/u/.cache/app".to_string()),
        Some("/home/u".to_string()),
        "app",
    )
    .unwrap();
    assert_eq!(cache.root_path(), strings(&["/home/u/.cache/app"]));
}

#[test]
fn root_falls_back_to_home() {
    let cache = Cache::new(None, Some("/home/u".to_string()), "app").unwrap();
    assert_eq!(cache.root_path(), strings(&["/home/u", ".cache", "app"]));
}

#[test]
fn no_root_without_home() {
    assert_eq!(Cache::new(None, None, "app").err(), Some(CacheError::NoHome));
}

#[test]
fn paths_under_the_root() {
    let cache = Cache::new(Some("/c".to_string()), None, "app").unwrap();
    assert_eq!(
        cache.meta_github_org("FauxFaux"),
        strings(&["/c", "meta/github", "fauxfaux"])
    );
    assert_eq!(
        cache.repo_bare("FauxFaux", "Git.Geoff"),
        strings(&["/c", "repos", "fauxfaux", "git_geoff.git"])
    );
    assert_eq!(
        cache.repo_bare("../x", ""),
        strings(&["/c", "repos", "___x", ".git"])
    );
}

#[test]
fn safe_characters() {
    assert_eq!(safe_char_for('a', true), 'a');
    assert_eq!(safe_char_for('Z', true), 'z');
    assert_eq!(safe_char_for('A', true), 'a');
    assert_eq!(safe_char_for('É', true), 'É');
    assert_eq!(safe_char_for('7', true), '7');
    assert_eq!(safe_char_for('-', false), '-');
    assert_eq!(safe_char_for('_', false), '_');
    assert_eq!(safe_char_for('/', false), '_');
    assert_eq!(safe_char_for('@', false), '_');
    assert_eq!(safe_char_for('[', false), '_');
}

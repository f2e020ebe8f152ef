use gitgeoff::infect::{add_if_missing, fetches_remote_head, remote_head_entry};
use gitgeoff::mirror::{clone_or_fetch, MirrorState, SyncAction};

fn describe(actions: &[SyncAction]) -> Vec<String> {
    actions
        .iter()
        .map(|a| match a {
            SyncAction::InitBare => "init".to_string(),
            SyncAction::CreateRemote(url) => format!("remote {}", url),
            SyncAction::ClearFetch => "clear".to_string(),
            SyncAction::AddFetch(spec) => format!("add {}", spec),
            SyncAction::Fetch => "fetch".to_string(),
        })
        .collect()
}

#[test]
fn new_mirror_is_made_and_given_its_remote() {
    let state = MirrorState {
        exists: false,
        origin: None,
        fetch: Vec::new(),
    };
    assert_eq!(
        describe(&clone_or_fetch(&state, "git@github.com:o/r.git")),
        vec![
            "init",
            "remote git@github.com:o/r.git",
            "clear",
            "add +refs/heads/*:refs/heads/*",
            "fetch",
        ]
    );
}

#[test]
fn known_remote_is_never_changed() {
    let state = MirrorState {
        exists: true,
        origin: Some("git@github.com:o/old.git".to_string()),
        fetch: vec!["+refs/heads/*:refs/remotes/origin/*".to_string()],
    };
    assert_eq!(
        describe(&clone_or_fetch(&state, "git@github.com:o/new.git")),
        vec!["clear", "add +refs/heads/*:refs/heads/*", "fetch"]
    );
}

#[test]
fn second_sync_makes_nothing_anew() {
    let synced = MirrorState {
        exists: true,
        origin: Some("git@github.com:o/r.git".to_string()),
        fetch: vec!["+refs/heads/*:refs/heads/*".to_string()],
    };
    assert_eq!(
        describe(&clone_or_fetch(&synced, "git@github.com:o/r.git")),
        vec!["clear", "add +refs/heads/*:refs/heads/*", "fetch"]
    );
}

#[test]
fn mirror_without_remote_gets_one() {
    let state = MirrorState {
        exists: true,
        origin: None,
        fetch: Vec::new(),
    };
    assert_eq!(
        describe(&clone_or_fetch(&state, "https://example.com/r")),
        vec![
            "remote https://example.com/r",
            "clear",
            "add +refs/heads/*:refs/heads/*",
            "fetch",
        ]
    );
}

#[test]
fn remote_head_mapping_is_found() {
    let mapping = "+HEAD:refs/remotes/origin/REMOTE_HEAD";
    assert_eq!(remote_head_entry(), mapping);
    let with = vec![
        Some("+refs/heads/*:refs/heads/*".to_string()),
        None,
        Some(mapping.to_string()),
    ];
    assert!(fetches_remote_head(&with));
    assert_eq!(add_if_missing(&with), None);
    let without = vec![
        Some("+refs/heads/*:refs/heads/*".to_string()),
        None,
        Some("+HEAD:refs/remotes/origin/REMOTE_HEAD ".to_string()),
        Some(String::new()),
    ];
    assert!(!fetches_remote_head(&without));
    assert_eq!(add_if_missing(&without), Some(mapping.to_string()));
    assert!(!fetches_remote_head(&Vec::new()));
    assert_eq!(add_if_missing(&Vec::new()), Some(mapping.to_string()));
}

#[test]
fn adding_the_mapping_settles_it() {
    let mut entries = vec![Some("+refs/heads/*:refs/heads/*".to_string())];
    let added = add_if_missing(&entries);
    entries.push(added);
    assert!(fetches_remote_head(&entries));
    assert_eq!(add_if_missing(&entries), None);
}

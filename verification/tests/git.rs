use gitgeoff::git::{
    change_line, change_word, first_statuses, if_found, variance_from_origin_head, Found,
    ObjectId, Probe, Progress, StatusEntry, Variance, VcsError, Wanted, CONFLICTED, IGNORED,
    INDEX_DELETED, INDEX_MODIFIED, INDEX_NEW, INDEX_RENAMED, MAX_CHANGES, WT_DELETED,
    WT_MODIFIED, WT_NEW, WT_RENAMED,
};

fn id(byte: u8) -> ObjectId {
    ObjectId {
        bytes: vec![byte; 20],
    }
}

fn entry(flags: u32, path: &str) -> StatusEntry {
    StatusEntry {
        flags,
        path: Some(path.to_string()),
    }
}

#[test]
fn flags_are_those_of_git2() {
    assert_eq!(INDEX_NEW, git2::Status::INDEX_NEW.bits());
    assert_eq!(INDEX_MODIFIED, git2::Status::INDEX_MODIFIED.bits());
    assert_eq!(INDEX_DELETED, git2::Status::INDEX_DELETED.bits());
    assert_eq!(INDEX_RENAMED, git2::Status::INDEX_RENAMED.bits());
    assert_eq!(WT_NEW, git2::Status::WT_NEW.bits());
    assert_eq!(WT_MODIFIED, git2::Status::WT_MODIFIED.bits());
    assert_eq!(WT_DELETED, git2::Status::WT_DELETED.bits());
    assert_eq!(WT_RENAMED, git2::Status::WT_RENAMED.bits());
    assert_eq!(IGNORED, git2::Status::IGNORED.bits());
    assert_eq!(CONFLICTED, git2::Status::CONFLICTED.bits());
}

#[test]
fn same_object_ids() {
    assert!(id(1).same(&id(1)));
    assert!(!id(1).same(&id(2)));
    let short = ObjectId { bytes: vec![1; 19] };
    assert!(!id(1).same(&short));
    let mut other = id(1);
    other.bytes[19] = 0;
    assert!(!id(1).same(&other));
}

fn finished(step: Option<(Probe, Wanted)>) -> Option<Variance> {
    match step {
        Some((Probe::Done, Wanted::Finish(variance))) => Some(variance),
        _ => None,
    }
}

#[test]
fn head_that_is_no_branch_is_not_on_branch() {
    assert_eq!(
        variance_from_origin_head(false, &id(1), &id(2), &id(2), 3, 0),
        Variance::NotOnBranch
    );
    assert_eq!(
        variance_from_origin_head(false, &id(1), &id(1), &id(1), 0, 0),
        Variance::NotOnBranch
    );
}

#[test]
fn same_commit_is_equal() {
    assert_eq!(
        variance_from_origin_head(true, &id(1), &id(1), &id(1), 0, 0),
        Variance::Equal
    );
    assert_eq!(
        variance_from_origin_head(true, &id(1), &id(1), &id(1), 1, 1),
        Variance::Equal
    );
    assert_eq!(
        variance_from_origin_head(true, &id(1), &id(1), &id(9), 4, 5),
        Variance::Equal
    );
}

#[test]
fn ahead_behind_diverged() {
    assert_eq!(
        variance_from_origin_head(true, &id(1), &id(2), &id(2), 3, 0),
        Variance::Ahead(3)
    );
    assert_eq!(
        variance_from_origin_head(true, &id(1), &id(2), &id(1), 0, 4),
        Variance::Behind(4)
    );
    assert_eq!(
        variance_from_origin_head(true, &id(1), &id(2), &id(3), 2, 5),
        Variance::Diverged {
            local: 2,
            remote: 5
        }
    );
}

#[test]
fn counts_that_no_graph_gives_are_divergence() {
    assert_eq!(
        variance_from_origin_head(true, &id(1), &id(2), &id(2), 0, 6),
        Variance::Diverged {
            local: 0,
            remote: 6
        }
    );
    assert_eq!(
        variance_from_origin_head(true, &id(1), &id(2), &id(1), 7, 0),
        Variance::Diverged {
            local: 7,
            remote: 0
        }
    );
}

#[test]
fn reading_ends_at_a_head_that_is_no_branch() {
    let (probe, wanted) = Probe::new();
    assert!(matches!(probe, Probe::Head));
    assert!(matches!(wanted, Wanted::Head));
    assert_eq!(
        finished(probe.step(Found::Head(false))),
        Some(Variance::NotOnBranch)
    );
}

#[test]
fn reading_ends_at_the_same_commit() {
    let (probe, _) = Probe::new();
    let (probe, wanted) = probe.step(Found::Head(true)).unwrap();
    assert!(matches!(probe, Probe::Tips));
    assert!(matches!(wanted, Wanted::Tips));
    assert_eq!(
        finished(probe.step(Found::Tips(id(4), id(4)))),
        Some(Variance::Equal)
    );
}

#[test]
fn reading_goes_on_to_the_graph() {
    let (probe, _) = Probe::new();
    let (probe, _) = probe.step(Found::Head(true)).unwrap();
    let (probe, wanted) = probe.step(Found::Tips(id(1), id(2))).unwrap();
    assert!(matches!(wanted, Wanted::Graph));
    match &probe {
        Probe::Graph { local, remote } => {
            assert!(local.same(&id(1)));
            assert!(remote.same(&id(2)));
        }
        _ => panic!("the commits were not kept"),
    }
    assert_eq!(
        finished(probe.clone().step(Found::Graph(id(2), 3, 0))),
        Some(Variance::Ahead(3))
    );
    assert_eq!(
        finished(probe.clone().step(Found::Graph(id(1), 0, 2))),
        Some(Variance::Behind(2))
    );
    assert_eq!(
        finished(probe.step(Found::Graph(id(3), 1, 2))),
        Some(Variance::Diverged {
            local: 1,
            remote: 2
        })
    );
}

#[test]
fn readings_out_of_order_are_refused() {
    let (probe, _) = Probe::new();
    assert!(probe.clone().step(Found::Tips(id(1), id(2))).is_none());
    assert!(probe.clone().step(Found::Graph(id(1), 1, 1)).is_none());
    let (tips, _) = probe.step(Found::Head(true)).unwrap();
    assert!(tips.clone().step(Found::Head(true)).is_none());
    assert!(tips.step(Found::Graph(id(1), 1, 1)).is_none());
    assert!(Probe::Done.step(Found::Head(true)).is_none());
}

#[test]
fn variance_is_described_as_debug_does() {
    let all = [
        Variance::Equal,
        Variance::NotOnBranch,
        Variance::Ahead(0),
        Variance::Ahead(12),
        Variance::Behind(3),
        Variance::Behind(usize::MAX),
        Variance::Diverged {
            local: 1,
            remote: 20,
        },
    ];
    for v in all.iter() {
        assert_eq!(v.describe(), format!("{:?}", v));
    }
    assert_eq!(Variance::Ahead(12).describe(), "Ahead(12)");
    assert_eq!(
        Variance::Diverged {
            local: 1,
            remote: 20
        }
        .describe(),
        "Diverged { local: 1, remote: 20 }"
    );
}

#[test]
fn codes_of_single_flags() {
    assert_eq!(entry(INDEX_NEW, "a").render(), "add \"a\"");
    assert_eq!(entry(WT_NEW, "a").render(), "new \"a\"");
    assert_eq!(entry(INDEX_MODIFIED, "a").render(), "mod \"a\"");
    assert_eq!(entry(WT_MODIFIED, "a").render(), "mod \"a\"");
    assert_eq!(entry(INDEX_DELETED, "a").render(), "del \"a\"");
    assert_eq!(entry(WT_DELETED, "a").render(), "del \"a\"");
    assert_eq!(entry(INDEX_RENAMED, "a").render(), "mov \"a\"");
    assert_eq!(entry(WT_RENAMED, "a").render(), "mov \"a\"");
    assert_eq!(entry(CONFLICTED, "a").render(), "CON \"a\"");
}

#[test]
fn other_flags_are_shown_raw() {
    let both = INDEX_MODIFIED | WT_MODIFIED;
    let raw = format!("{:?}", git2::Status::from_bits_truncate(both));
    assert_ne!(raw, "");
    assert_eq!(entry(both, "a").render(), format!("?{}? \"a\"", raw));
    let none = format!("{:?}", git2::Status::from_bits_truncate(0));
    assert_eq!(entry(0, "a").render(), format!("?{}? \"a\"", none));
    assert_ne!(entry(both, "a").render(), entry(0, "a").render());
}

#[test]
fn paths_are_quoted() {
    assert_eq!(
        entry(WT_NEW, "dir/with \"quotes\"\n").render(),
        "new \"dir/with \\\"quotes\\\"\\n\""
    );
    let nameless = StatusEntry {
        flags: WT_NEW,
        path: None,
    };
    assert_eq!(nameless.render(), "new \"?\"");
}

#[test]
fn first_statuses_stop_at_three() {
    let entries = vec![
        entry(WT_NEW, "a"),
        entry(WT_MODIFIED, "b"),
        entry(INDEX_NEW, "c"),
        entry(WT_DELETED, "d"),
    ];
    assert_eq!(
        first_statuses(&entries),
        vec!["new \"a\"", "mod \"b\"", "add \"c\""]
    );
    assert_eq!(MAX_CHANGES, 3);
}

#[test]
fn first_statuses_leave_ignored_out() {
    let entries = vec![
        entry(IGNORED, "target"),
        entry(WT_NEW, "a"),
        entry(IGNORED | WT_NEW, "b"),
        entry(WT_MODIFIED, "c"),
        entry(IGNORED, "d"),
        entry(CONFLICTED, "e"),
        entry(WT_NEW, "f"),
    ];
    assert_eq!(
        first_statuses(&entries),
        vec!["new \"a\"", "mod \"c\"", "CON \"e\""]
    );
    let only_ignored = vec![entry(IGNORED, "x"), entry(IGNORED, "y")];
    assert_eq!(first_statuses(&only_ignored), Vec::<String>::new());
    assert_eq!(first_statuses(&Vec::new()), Vec::<String>::new());
    let two = vec![entry(WT_NEW, "a"), entry(IGNORED, "x"), entry(WT_NEW, "b")];
    assert_eq!(first_statuses(&two), vec!["new \"a\"", "new \"b\""]);
}

#[test]
fn not_found_is_an_answer() {
    let found: Result<u8, VcsError> = Ok(5);
    assert!(matches!(if_found(found), Ok(Some(5))));
    let missing: Result<u8, VcsError> = Err(VcsError::NotFound("no remote".to_string()));
    assert!(matches!(if_found(missing), Ok(None)));
    let broken: Result<u8, VcsError> = Err(VcsError::Other("corrupt".to_string()));
    match if_found(broken) {
        Err(VcsError::Other(message)) => assert_eq!(message, "corrupt"),
        _ => panic!("another failure must stay a failure"),
    }
}

#[test]
fn transfer_counters_keep_their_order() {
    match Progress::transfer(1, 2, 3, 4, 5, 6, 7) {
        Progress::Transfer(counts) => assert_eq!(counts, [1, 2, 3, 4, 5, 6, 7]),
        Progress::Sideband(_) => panic!("counters became text"),
    }
}

#[test]
fn words_of_single_flags() {
    assert_eq!(change_word(INDEX_NEW), Some("add"));
    assert_eq!(change_word(WT_NEW), Some("new"));
    assert_eq!(change_word(INDEX_MODIFIED), Some("mod"));
    assert_eq!(change_word(WT_MODIFIED), Some("mod"));
    assert_eq!(change_word(INDEX_DELETED), Some("del"));
    assert_eq!(change_word(WT_DELETED), Some("del"));
    assert_eq!(change_word(INDEX_RENAMED), Some("mov"));
    assert_eq!(change_word(WT_RENAMED), Some("mov"));
    assert_eq!(change_word(CONFLICTED), Some("CON"));
    assert_eq!(change_word(0), None);
    assert_eq!(change_word(IGNORED), None);
    assert_eq!(change_word(INDEX_NEW | WT_MODIFIED), None);
    assert_eq!(change_word(INDEX_MODIFIED | WT_MODIFIED), None);
    assert_eq!(change_word(0x10), None);
}

#[test]
fn lines_of_changes() {
    assert_eq!(change_line(WT_NEW, "ignored", "\"a\""), "new \"a\"");
    assert_eq!(
        change_line(INDEX_NEW | WT_MODIFIED, "Status(X | Y)", "\"a\""),
        "?Status(X | Y)? \"a\""
    );
    assert_eq!(change_line(0, "", ""), "?? ");
}

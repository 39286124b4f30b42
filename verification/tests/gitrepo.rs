//! Integration tests against a real Git repository: the trusted boundary is
//! exercised end to end through the public operations.

use git_memo::commands::{handle_command, run, Command, Report};
use git_memo::errors::MemoError;
use git_memo::gitops::{
    add_memo, archive_category, edit_memo, list_archive_categories, list_categories, list_memos,
    memo_ref_names, remove_memos,
};
use git_memo::log::{ArchiveOutcome, RemoveOutcome};
use git_memo::node::Timestamp;
use git_memo::text::trim_trailing_newlines;

fn test_repo() -> (tempfile::TempDir, git2::Repository) {
    let dir = tempfile::tempdir().expect("temp dir");
    let repo = git2::Repository::init(dir.path()).expect("init repository");
    {
        let mut config = repo.config().expect("config");
        config.set_str("user.name", "Test").unwrap();
        config.set_str("user.email", "test@example.com").unwrap();
    }
    (dir, repo)
}

fn fixed_ts() -> Option<Timestamp> {
    Some(Timestamp {
        secs: 1_700_000_000,
        offset_min: 0,
    })
}

#[test]
fn adds_memo_commit() {
    let (_dir, repo) = test_repo();
    let oid = add_memo(&repo, "todo", "first memo", None).unwrap();
    assert_eq!(oid.len(), 40);

    let head = repo.refname_to_id("refs/memo/todo").unwrap();
    assert_eq!(head.to_string(), oid);

    let records = list_memos(&repo, "todo").unwrap().expect("log exists");
    assert_eq!(records, vec![(oid, "first memo".to_string())]);
}

#[test]
fn lists_memos_oldest_first_with_first_lines() {
    let (_dir, repo) = test_repo();
    let a = add_memo(&repo, "todo", "first memo", None).unwrap();
    let b = add_memo(&repo, "todo", "line one\nline two", None).unwrap();
    let records = list_memos(&repo, "todo").unwrap().expect("log exists");
    assert_eq!(
        records,
        vec![
            (a, "first memo".to_string()),
            (b, "line one".to_string()),
        ]
    );
}

#[test]
fn lists_memos() {
    let (_dir, repo) = test_repo();
    add_memo(&repo, "todo", "first memo", None).unwrap();
    let records = list_memos(&repo, "todo").unwrap().expect("log exists");
    assert_eq!(records.len(), 1);
    assert_eq!(records[0].1, "first memo");
}

#[test]
fn adds_memo_from_stdin() {
    let (_dir, repo) = test_repo();
    // The tool strips the trailing newlines of piped input before recording.
    let message = trim_trailing_newlines("line one\nline two\n");
    add_memo(&repo, "todo", &message, None).unwrap();
    let head = repo.refname_to_id("refs/memo/todo").unwrap();
    let body = repo.find_commit(head).unwrap().message().unwrap().to_string();
    assert!(body.contains("line one"));
    assert!(body.contains("line two"));
    assert!(!body.ends_with('\n'));
}

#[test]
fn lists_categories() {
    let (_dir, repo) = test_repo();
    add_memo(&repo, "todo", "first memo", None).unwrap();
    add_memo(&repo, "idea", "another", None).unwrap();
    let names = list_categories(&repo).unwrap();
    assert!(names.contains(&"todo".to_string()));
    assert!(names.contains(&"idea".to_string()));
}

#[test]
fn absent_log_is_reported_as_such() {
    let (_dir, repo) = test_repo();
    assert!(list_memos(&repo, "todo").unwrap().is_none());
}

#[test]
fn identical_components_hash_identically() {
    let (_dir, repo) = test_repo();
    let one = add_memo(&repo, "alpha", "same payload", fixed_ts()).unwrap();
    let two = add_memo(&repo, "beta", "same payload", fixed_ts()).unwrap();
    // Same payload, author, timestamp, and parent (none): one content hash,
    // stored once, referenced by both pointers.
    assert_eq!(one, two);
    let other = add_memo(&repo, "gamma", "different payload", fixed_ts()).unwrap();
    assert_ne!(one, other);
}

#[test]
fn appends_are_chained_through_parents() {
    let (_dir, repo) = test_repo();
    add_memo(&repo, "todo", "first", None).unwrap();
    add_memo(&repo, "todo", "second", None).unwrap();
    let head = repo.refname_to_id("refs/memo/todo").unwrap();
    let commit = repo.find_commit(head).unwrap();
    assert_eq!(commit.message().unwrap(), "second");
    assert_eq!(commit.parent_count(), 1);
    assert_eq!(
        commit.parent(0).unwrap().message().unwrap(),
        "first"
    );
}

#[test]
fn edits_latest_memo() {
    let (_dir, repo) = test_repo();
    add_memo(&repo, "todo", "first memo", None).unwrap();
    let new_oid = edit_memo(&repo, "todo", "edited memo", None)
        .unwrap()
        .expect("there was a memo to edit");
    let records = list_memos(&repo, "todo").unwrap().unwrap();
    assert_eq!(records, vec![(new_oid, "edited memo".to_string())]);
}

#[test]
fn editing_an_absent_category_amends_nothing() {
    let (_dir, repo) = test_repo();
    assert!(edit_memo(&repo, "todo", "edited", None).unwrap().is_none());
}

#[test]
fn archives_category() {
    let (_dir, repo) = test_repo();
    add_memo(&repo, "todo", "first memo", None).unwrap();
    assert!(matches!(
        archive_category(&repo, "todo").unwrap(),
        ArchiveOutcome::Archived
    ));
    assert!(repo.refname_to_id("refs/memo/todo").is_err());
    assert!(repo.refname_to_id("refs/archive/todo").is_ok());
    assert!(list_memos(&repo, "todo").unwrap().is_none());
}

#[test]
fn archiving_twice_never_overwrites() {
    let (_dir, repo) = test_repo();
    add_memo(&repo, "todo", "first", None).unwrap();
    archive_category(&repo, "todo").unwrap();
    add_memo(&repo, "todo", "second", None).unwrap();
    match archive_category(&repo, "todo") {
        Err(MemoError::AlreadyExists { refname }) => {
            assert_eq!(refname, "refs/archive/todo");
        }
        _ => panic!("expected the archive pointer to be protected"),
    }
}

#[test]
fn removes_memos() {
    let (_dir, repo) = test_repo();
    add_memo(&repo, "todo", "first memo", None).unwrap();
    assert!(matches!(
        remove_memos(&repo, "todo").unwrap(),
        RemoveOutcome::Removed
    ));
    assert!(repo.refname_to_id("refs/memo/todo").is_err());
    assert!(matches!(
        remove_memos(&repo, "todo").unwrap(),
        RemoveOutcome::NothingToRemove
    ));
}

#[test]
fn removed_category_restarts_without_a_parent() {
    let (_dir, repo) = test_repo();
    add_memo(&repo, "todo", "old", None).unwrap();
    remove_memos(&repo, "todo").unwrap();
    add_memo(&repo, "todo", "fresh", None).unwrap();
    let head = repo.refname_to_id("refs/memo/todo").unwrap();
    let commit = repo.find_commit(head).unwrap();
    assert_eq!(commit.parent_count(), 0);
    assert_eq!(commit.message().unwrap(), "fresh");
}

#[test]
fn lists_categories_sorted_and_deduplicated() {
    let (_dir, repo) = test_repo();
    add_memo(&repo, "todo", "first memo", None).unwrap();
    add_memo(&repo, "idea", "another", None).unwrap();
    add_memo(&repo, "todo", "second memo", None).unwrap();
    let names = list_categories(&repo).unwrap();
    assert_eq!(names, vec!["idea".to_string(), "todo".to_string()]);
    assert!(list_archive_categories(&repo).unwrap().is_empty());
}

#[test]
fn lists_archive_categories() {
    let (_dir, repo) = test_repo();
    add_memo(&repo, "todo", "first memo", None).unwrap();
    add_memo(&repo, "idea", "another", None).unwrap();
    archive_category(&repo, "todo").unwrap();
    assert_eq!(list_categories(&repo).unwrap(), vec!["idea".to_string()]);
    assert_eq!(
        list_archive_categories(&repo).unwrap(),
        vec!["todo".to_string()]
    );
}

#[test]
fn errors_when_missing_git_config() {
    let (_dir, repo) = test_repo();
    {
        let mut config = repo.config().unwrap();
        config.set_str("user.name", "   ").unwrap();
    }
    match add_memo(&repo, "todo", "msg", None) {
        Err(MemoError::MissingIdentity) => {}
        _ => panic!("expected MissingIdentity"),
    }
    assert!(repo.refname_to_id("refs/memo/todo").is_err());
    assert!(
        MemoError::MissingIdentity
            .describe()
            .contains("user.name must be set")
    );
}

#[test]
fn adds_memo_without_email() {
    let (_dir, repo) = test_repo();
    {
        let mut config = repo.config().unwrap();
        config.set_str("user.email", " ").unwrap();
    }
    add_memo(&repo, "todo", "msg", None).unwrap();
    let head = repo.refname_to_id("refs/memo/todo").unwrap();
    let commit = repo.find_commit(head).unwrap();
    assert_eq!(commit.author().email().unwrap(), "none");
}

#[test]
fn rejects_invalid_category_before_touching_the_store() {
    let (_dir, repo) = test_repo();
    match add_memo(&repo, "bad category", "msg", None) {
        Err(e @ MemoError::InvalidCategory { .. }) => {
            assert_eq!(e.describe(), "Invalid category name: bad category");
        }
        _ => panic!("expected InvalidCategory"),
    }
    assert!(memo_ref_names(&repo).unwrap().is_empty());
}

#[test]
fn retries_surface_exhaustion_with_the_pointer_name() {
    let err = MemoError::RetryExhausted {
        refname: "refs/memo/todo".to_string(),
        attempts: 5,
    };
    assert_eq!(
        err.describe(),
        "Failed to update refs/memo/todo after 5 attempts"
    );
}

#[test]
fn commands_drive_the_same_operations() {
    let (_dir, repo) = test_repo();
    let added = handle_command(
        &repo,
        &Command::Add {
            category: "todo".to_string(),
            message: "first memo".to_string(),
        },
    )
    .unwrap();
    let recorded_oid = match added {
        Report::Recorded { oid, refname } => {
            assert_eq!(refname, "refs/memo/todo");
            oid
        }
        _ => panic!("expected Recorded"),
    };

    match handle_command(
        &repo,
        &Command::List {
            category: "todo".to_string(),
            json: false,
        },
    )
    .unwrap()
    {
        Report::Memos { records, .. } => {
            assert_eq!(
                records.unwrap(),
                vec![(recorded_oid, "first memo".to_string())]
            );
        }
        _ => panic!("expected Memos"),
    }

    match handle_command(
        &repo,
        &Command::Grep {
            pattern: "first".to_string(),
        },
    )
    .unwrap()
    {
        Report::Search { args } => {
            let args = args.expect("one pointer exists");
            assert_eq!(&args[..4], &["log", "--format=%s", "--grep", "first"]);
            assert_eq!(args[4], "refs/memo/todo");
        }
        _ => panic!("expected Search"),
    }

    match handle_command(
        &repo,
        &Command::Push {
            remote: "origin".to_string(),
        },
    )
    .unwrap()
    {
        Report::Transfer { remote, refspec } => {
            assert_eq!(remote, "origin");
            assert_eq!(refspec, "refs/memo/*:refs/memo/*");
        }
        _ => panic!("expected Transfer"),
    }

    assert!(run(&repo, None).unwrap().is_none());
    assert!(run(
        &repo,
        Some(&Command::Categories { json: false })
    )
    .unwrap()
    .is_some());
}

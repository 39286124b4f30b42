//! Scenario tests for the log protocol against the in-memory store model.

use git_memo::category::Category;
use git_memo::controller::{AppendMachine, Phase, MAX_ATTEMPTS};
use git_memo::errors::MemoError;
use git_memo::identity::Identity;
use git_memo::log::{AmendOutcome, ArchiveOutcome, ReadOutcome, RemoveOutcome};
use git_memo::node::{ChainNode, Timestamp};
use git_memo::store::MemStore;

fn ts(secs: i64) -> Timestamp {
    Timestamp {
        secs,
        offset_min: 0,
    }
}

fn author() -> (Option<String>, Option<String>) {
    (Some("Test".to_string()), Some("test@example.com".to_string()))
}

fn append(store: &mut MemStore, category: &str, payload: &str, secs: i64) -> usize {
    let (name, email) = author();
    store
        .append(category, payload, name, email, ts(secs))
        .expect("append should succeed")
}

fn records(store: &MemStore, category: &str) -> Vec<(usize, String)> {
    match store.read_all(category).expect("read_all should succeed") {
        ReadOutcome::Records(v) => v,
        ReadOutcome::Absent => panic!("expected records, log is absent"),
    }
}

#[test]
fn sequential_appends_keep_order_and_parents() {
    let mut store = MemStore::new();
    let a = append(&mut store, "todo", "first", 1);
    let b = append(&mut store, "todo", "second", 2);
    let c = append(&mut store, "todo", "third", 3);

    let recs = records(&store, "todo");
    assert_eq!(
        recs,
        vec![
            (a, "first".to_string()),
            (b, "second".to_string()),
            (c, "third".to_string())
        ]
    );
    assert_eq!(store.nodes[a].parent, None);
    assert_eq!(store.nodes[b].parent, Some(a));
    assert_eq!(store.nodes[c].parent, Some(b));
}

#[test]
fn first_lines_summarize_multiline_payloads() {
    let mut store = MemStore::new();
    let id = append(&mut store, "todo", "line one\nline two", 1);
    let recs = records(&store, "todo");
    assert_eq!(recs, vec![(id, "line one".to_string())]);
}

#[test]
fn absent_category_is_distinguished() {
    let store = MemStore::new();
    match store.read_all("todo").unwrap() {
        ReadOutcome::Absent => {}
        ReadOutcome::Records(_) => panic!("no log should exist"),
    }
}

#[test]
fn interleaved_writers_lose_no_record() {
    let mut store = MemStore::new();
    let cat = || Category::new("todo").unwrap();
    let ident = || Identity {
        name: "Test".to_string(),
        email: "test@example.com".to_string(),
    };
    let mut w1 = AppendMachine::new(cat(), "from first".to_string(), ident(), ts(1), MAX_ATTEMPTS);
    let mut w2 = AppendMachine::new(cat(), "from second".to_string(), ident(), ts(2), MAX_ATTEMPTS);

    // Both writers read the (absent) head before either publishes.
    w1.step(&mut store);
    w2.step(&mut store);
    // The second lands first; the first conflicts, re-reads, and retries.
    w2.step(&mut store);
    assert!(matches!(w2.phase, Phase::Done { .. }));
    w1.step(&mut store);
    assert!(matches!(w1.phase, Phase::ReadHead));
    w1.step(&mut store);
    w1.step(&mut store);
    assert!(matches!(w1.phase, Phase::Done { .. }));
    assert_eq!(w1.attempts, 2);

    let recs = records(&store, "todo");
    assert_eq!(recs.len(), 2);
    assert_ne!(recs[0].0, recs[1].0);
    assert_eq!(recs[0].1, "from second");
    assert_eq!(recs[1].1, "from first");
}

#[test]
fn one_conflict_is_retried_and_succeeds() {
    let mut store = MemStore::new();
    append(&mut store, "todo", "initial", 1);
    let ident = Identity {
        name: "Test".to_string(),
        email: "test@example.com".to_string(),
    };
    let mut writer = AppendMachine::new(
        Category::new("todo").unwrap(),
        "mine".to_string(),
        ident,
        ts(2),
        MAX_ATTEMPTS,
    );
    writer.step(&mut store); // reads the head
    append(&mut store, "todo", "raced in between", 3); // exactly one conflicting writer
    writer.step(&mut store); // conflict: back to reading the head
    assert!(matches!(writer.phase, Phase::ReadHead));
    writer.step(&mut store);
    writer.step(&mut store); // second attempt lands
    assert!(matches!(writer.phase, Phase::Done { .. }));
    assert_eq!(writer.attempts, 2);

    let recs = records(&store, "todo");
    assert_eq!(recs.len(), 3);
    assert_eq!(recs[2].1, "mine");
}

#[test]
fn conflicts_on_every_attempt_exhaust_the_ceiling() {
    let mut store = MemStore::new();
    let ident = Identity {
        name: "Test".to_string(),
        email: "test@example.com".to_string(),
    };
    let mut writer = AppendMachine::new(
        Category::new("todo").unwrap(),
        "never lands".to_string(),
        ident,
        ts(1),
        MAX_ATTEMPTS,
    );
    let mut clock: i64 = 100;
    for _ in 0..MAX_ATTEMPTS {
        writer.step(&mut store); // reads the head
        append(&mut store, "todo", "interference", clock); // moves it every time
        clock += 1;
        writer.step(&mut store); // conflicts
    }
    assert!(matches!(writer.phase, Phase::Exhausted));
    assert_eq!(writer.attempts, MAX_ATTEMPTS);
    // Nothing of the exhausted writer's record reached the log.
    let recs = records(&store, "todo");
    assert_eq!(recs.len(), MAX_ATTEMPTS as usize);
    for (_, line) in recs {
        assert_eq!(line, "interference");
    }
}

#[test]
fn archive_then_read_reports_absent_and_preserves_records() {
    let mut store = MemStore::new();
    let a = append(&mut store, "todo", "first", 1);
    let b = append(&mut store, "todo", "second", 2);
    let before = records(&store, "todo");

    assert!(matches!(
        store.archive("todo").unwrap(),
        ArchiveOutcome::Archived
    ));
    match store.read_all("todo").unwrap() {
        ReadOutcome::Absent => {}
        ReadOutcome::Records(_) => panic!("live log should be absent after archive"),
    }
    match store.read_archived("todo").unwrap() {
        ReadOutcome::Records(after) => {
            assert_eq!(after, before);
            assert_eq!(after, vec![(a, "first".to_string()), (b, "second".to_string())]);
        }
        ReadOutcome::Absent => panic!("archive should hold the records"),
    }
}

#[test]
fn archive_of_absent_category_is_a_noop() {
    let mut store = MemStore::new();
    assert!(matches!(
        store.archive("todo").unwrap(),
        ArchiveOutcome::NothingToArchive
    ));
}

#[test]
fn archive_never_overwrites_an_existing_archive() {
    let mut store = MemStore::new();
    append(&mut store, "todo", "first", 1);
    assert!(matches!(
        store.archive("todo").unwrap(),
        ArchiveOutcome::Archived
    ));
    append(&mut store, "todo", "second", 2);
    match store.archive("todo") {
        Err(MemoError::AlreadyExists { refname }) => {
            assert_eq!(refname, "refs/archive/todo");
        }
        other => panic!("expected AlreadyExists, got {:?}", other.is_ok()),
    }
}

#[test]
fn remove_then_append_starts_a_fresh_chain() {
    let mut store = MemStore::new();
    append(&mut store, "todo", "old one", 1);
    append(&mut store, "todo", "old two", 2);
    assert!(matches!(
        store.remove("todo").unwrap(),
        RemoveOutcome::Removed
    ));
    match store.read_all("todo").unwrap() {
        ReadOutcome::Absent => {}
        ReadOutcome::Records(_) => panic!("log should be gone after remove"),
    }
    let fresh = append(&mut store, "todo", "new start", 3);
    assert_eq!(store.nodes[fresh].parent, None);
    let recs = records(&store, "todo");
    assert_eq!(recs, vec![(fresh, "new start".to_string())]);
}

#[test]
fn remove_of_absent_category_is_a_noop() {
    let mut store = MemStore::new();
    assert!(matches!(
        store.remove("todo").unwrap(),
        RemoveOutcome::NothingToRemove
    ));
}

#[test]
fn identical_inputs_build_the_same_identifier() {
    let mut store = MemStore::new();
    let node = || ChainNode {
        payload: "same payload".to_string(),
        author: Identity {
            name: "Test".to_string(),
            email: "test@example.com".to_string(),
        },
        timestamp: ts(42),
        parent: None,
    };
    let first = store.put(node());
    let second = store.put(node());
    assert_eq!(first, second);
    assert!(node().same_content(&node()));

    let mut other = node();
    other.payload = "different payload".to_string();
    assert_ne!(store.put(other), first);
}

#[test]
fn invalid_category_is_rejected_by_every_operation() {
    let mut store = MemStore::new();
    let (name, email) = author();
    let bad = "bad category";
    assert!(matches!(
        store.append(bad, "msg", name, email, ts(1)),
        Err(MemoError::InvalidCategory { .. })
    ));
    assert!(matches!(
        store.read_all(bad),
        Err(MemoError::InvalidCategory { .. })
    ));
    assert!(matches!(
        store.read_archived(bad),
        Err(MemoError::InvalidCategory { .. })
    ));
    let (name, email) = author();
    assert!(matches!(
        store.amend_latest(bad, "msg", name, email, ts(1)),
        Err(MemoError::InvalidCategory { .. })
    ));
    assert!(matches!(
        store.archive(bad),
        Err(MemoError::InvalidCategory { .. })
    ));
    assert!(matches!(
        store.remove(bad),
        Err(MemoError::InvalidCategory { .. })
    ));
    // No mutation happened anywhere.
    assert!(store.nodes.is_empty());
    assert!(store.live.is_empty());
    assert!(store.archive.is_empty());
}

#[test]
fn missing_identity_creates_no_pointer() {
    let mut store = MemStore::new();
    assert!(matches!(
        store.append("todo", "msg", None, Some("a@b".to_string()), ts(1)),
        Err(MemoError::MissingIdentity)
    ));
    assert!(matches!(
        store.append("todo", "msg", Some("   ".to_string()), None, ts(1)),
        Err(MemoError::MissingIdentity)
    ));
    assert!(store.nodes.is_empty());
    assert!(store.live.is_empty());
}

#[test]
fn amend_on_absent_category_reports_nothing_to_amend() {
    let mut store = MemStore::new();
    let (name, email) = author();
    assert!(matches!(
        store.amend_latest("todo", "new", name, email, ts(1)),
        Ok(AmendOutcome::NothingToAmend)
    ));
    assert!(store.live.is_empty());
}

#[test]
fn amend_replaces_the_newest_record_only() {
    let mut store = MemStore::new();
    let a = append(&mut store, "todo", "first", 1);
    let b = append(&mut store, "todo", "second", 2);
    let (name, email) = author();
    let c = match store.amend_latest("todo", "edited", name, email, ts(3)).unwrap() {
        AmendOutcome::Amended(id) => id,
        AmendOutcome::NothingToAmend => panic!("there was a record to amend"),
    };
    assert_ne!(b, c);
    assert_eq!(store.nodes[c].parent, Some(a));
    let recs = records(&store, "todo");
    assert_eq!(recs, vec![(a, "first".to_string()), (c, "edited".to_string())]);
}

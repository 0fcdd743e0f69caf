use cymbal::issue_resolution::{
    resolve_issue, resolve_slow_path, Issue, IssueFingerprintOverride, SignalReporter,
};
use cymbal::store::Store;
use cymbal::types::{Exception, FingerprintedErrProps, IssueStatus};

fn event(fingerprint: &str, ty: &str, msg: &str) -> FingerprintedErrProps {
    FingerprintedErrProps {
        fingerprint: fingerprint.to_string(),
        exception_list: vec![Exception {
            exception_type: ty.to_string(),
            exception_message: msg.to_string(),
        }],
    }
}

#[test]
fn scenario_new_issue() {
    let mut store = Store::new();
    let mut reporter = SignalReporter::new();

    let out = resolve_issue(
        &mut store,
        &mut reporter,
        1,
        event("abc123", "TypeError", "x is undefined"),
        0,
    );

    assert_eq!(reporter.issues_created, 1);
    assert_eq!(reporter.issues_reopened, 0);
    assert_eq!(store.issue_count(), 1);
    assert_eq!(store.override_count(), 1);
    assert_eq!(out.fingerprint, "abc123");

    let issue = Issue::load(&store, 1, out.issue_id).expect("the new issue must be loadable");
    assert_eq!(issue.id, out.issue_id);
    assert_eq!(issue.team_id, 1);
    assert_eq!(issue.status, IssueStatus::Active);
    assert_eq!(issue.name.as_deref(), Some("TypeError"));
    assert_eq!(issue.description.as_deref(), Some("x is undefined"));
}

#[test]
fn scenario_repeat_still_active() {
    let mut store = Store::new();
    let mut reporter = SignalReporter::new();

    let first = resolve_issue(
        &mut store,
        &mut reporter,
        1,
        event("abc123", "TypeError", "x is undefined"),
        0,
    );
    let second = resolve_issue(
        &mut store,
        &mut reporter,
        1,
        event("abc123", "TypeError", "x is undefined"),
        10,
    );

    assert_eq!(second.issue_id, first.issue_id);
    assert_eq!(reporter.issues_created, 1);
    assert_eq!(reporter.issues_reopened, 0);
    assert_eq!(store.issue_count(), 1);
    assert_eq!(store.override_count(), 1);
    let issue = Issue::load(&store, 1, first.issue_id).unwrap();
    assert_eq!(issue.name.as_deref(), Some("TypeError"));
}

#[test]
fn scenario_reopen() {
    let mut store = Store::new();
    let mut reporter = SignalReporter::new();

    let first = resolve_issue(
        &mut store,
        &mut reporter,
        1,
        event("abc123", "TypeError", "x is undefined"),
        0,
    );
    // An external workflow marks the issue resolved.
    assert!(store.set_status(first.issue_id, IssueStatus::Inactive));

    let second = resolve_issue(
        &mut store,
        &mut reporter,
        1,
        event("abc123", "TypeError", "x is undefined"),
        20,
    );

    assert_eq!(second.issue_id, first.issue_id);
    assert_eq!(reporter.issues_reopened, 1);
    assert_eq!(reporter.issues_created, 1);
    let issue = Issue::load(&store, 1, first.issue_id).unwrap();
    assert_eq!(issue.status, IssueStatus::Active);

    // Resolving once more reopens nothing: the issue is active again.
    let third = resolve_issue(
        &mut store,
        &mut reporter,
        1,
        event("abc123", "TypeError", "x is undefined"),
        30,
    );
    assert_eq!(third.issue_id, first.issue_id);
    assert_eq!(reporter.issues_reopened, 1);
}

#[test]
fn scenario_race() {
    let mut store = Store::new();
    let mut reporter = SignalReporter::new();

    // Both resolvers look up the fingerprint first and find nothing.
    assert!(Issue::load_by_fingerprint(&store, 2, "zzz").is_none());
    assert!(Issue::load_by_fingerprint(&store, 2, "zzz").is_none());

    // One slow path wins the override insert...
    let winner = resolve_slow_path(
        &mut store,
        &mut reporter,
        2,
        event("zzz", "ReferenceError", "y is undefined"),
        5,
    );
    // ...the other loses: its speculative issue row is discarded.
    let loser = resolve_slow_path(
        &mut store,
        &mut reporter,
        2,
        event("zzz", "ReferenceError", "y seems undefined"),
        6,
    );

    assert_eq!(loser.issue_id, winner.issue_id);
    assert_eq!(store.issue_count(), 1);
    assert_eq!(store.override_count(), 1);
    assert_eq!(reporter.issues_created, 1);
    assert_eq!(reporter.issues_reopened, 0);

    // The surviving row carries the winner's exception data.
    let issue = Issue::load(&store, 2, winner.issue_id).unwrap();
    assert_eq!(issue.name.as_deref(), Some("ReferenceError"));
    assert_eq!(issue.description.as_deref(), Some("y is undefined"));
}

#[test]
fn fast_path_ignores_exception_list() {
    let mut store = Store::new();
    let mut reporter = SignalReporter::new();

    let first = resolve_issue(
        &mut store,
        &mut reporter,
        1,
        event("abc123", "TypeError", "x is undefined"),
        0,
    );

    // Once the mapping exists, a resolve with no exception entries stays on
    // the fast path and succeeds.
    let empty = FingerprintedErrProps {
        fingerprint: "abc123".to_string(),
        exception_list: Vec::new(),
    };
    let second = resolve_issue(&mut store, &mut reporter, 1, empty, 10);
    assert_eq!(second.issue_id, first.issue_id);
    assert_eq!(store.issue_count(), 1);
}

#[test]
fn distinct_fingerprints_get_distinct_rows() {
    let mut store = Store::new();
    let mut reporter = SignalReporter::new();

    let a = resolve_issue(&mut store, &mut reporter, 1, event("fp-a", "A", "ma"), 0);
    let b = resolve_issue(&mut store, &mut reporter, 1, event("fp-b", "B", "mb"), 1);

    assert_eq!(store.issue_count(), 2);
    assert_eq!(store.override_count(), 2);
    assert_eq!(reporter.issues_created, 2);
    let ia = Issue::load(&store, 1, a.issue_id).unwrap();
    let ib = Issue::load(&store, 1, b.issue_id).unwrap();
    assert_eq!(ia.name.as_deref(), Some("A"));
    assert_eq!(ib.name.as_deref(), Some("B"));
}

#[test]
fn same_fingerprint_other_team_is_a_new_issue() {
    let mut store = Store::new();
    let mut reporter = SignalReporter::new();

    resolve_issue(&mut store, &mut reporter, 1, event("abc123", "A", "m"), 0);
    resolve_issue(&mut store, &mut reporter, 7, event("abc123", "A", "m"), 1);

    assert_eq!(store.issue_count(), 2);
    assert_eq!(store.override_count(), 2);
    assert_eq!(reporter.issues_created, 2);
}

#[test]
fn insert_is_idempotent_on_identity_conflict() {
    let mut store = Store::new();
    let mut reporter = SignalReporter::new();

    let issue = Issue::new(3, "E".to_string(), "m".to_string());
    assert!(issue.insert(&mut store, &mut reporter));
    assert!(!issue.insert(&mut store, &mut reporter));
    assert_eq!(store.issue_count(), 1);
    assert_eq!(reporter.issues_created, 1);
}

#[test]
fn maybe_reopen_only_flips_not_active_rows() {
    let mut store = Store::new();
    let mut reporter = SignalReporter::new();

    let issue = Issue::new(3, "E".to_string(), "m".to_string());
    issue.insert(&mut store, &mut reporter);

    // Already active: no transition, no signal.
    assert!(!issue.maybe_reopen(&mut store, &mut reporter));
    assert_eq!(reporter.issues_reopened, 0);

    store.set_status(issue.id, IssueStatus::Inactive);
    assert!(issue.maybe_reopen(&mut store, &mut reporter));
    assert_eq!(reporter.issues_reopened, 1);
    assert_eq!(
        Issue::load(&store, 3, issue.id).unwrap().status,
        IssueStatus::Active
    );

    // Unknown identity: a harmless no-op.
    let absent = Issue {
        id: issue.id.wrapping_add(1),
        team_id: 3,
        status: IssueStatus::Inactive,
        name: None,
        description: None,
    };
    assert!(!absent.maybe_reopen(&mut store, &mut reporter));
    assert_eq!(reporter.issues_reopened, 1);
}

#[test]
fn load_is_scoped_to_the_team() {
    let mut store = Store::new();
    let mut reporter = SignalReporter::new();

    let out = resolve_issue(&mut store, &mut reporter, 1, event("abc123", "A", "m"), 0);
    assert!(Issue::load(&store, 1, out.issue_id).is_some());
    assert!(Issue::load(&store, 2, out.issue_id).is_none());
    assert!(Issue::load(&store, 1, out.issue_id.wrapping_add(1)).is_none());
}

#[test]
fn create_or_load_returns_the_established_row() {
    let mut store = Store::new();
    let mut reporter = SignalReporter::new();

    let first = Issue::new(4, "A".to_string(), "ma".to_string());
    first.insert(&mut store, &mut reporter);
    let row = IssueFingerprintOverride::create_or_load(&mut store, 4, "fp", &first, 100);
    assert_eq!(row.issue_id, first.id);
    assert_eq!(row.team_id, 4);
    assert_eq!(row.fingerprint, "fp");
    assert_eq!(row.version, 0);
    assert_eq!(row.first_seen, 100);

    // A second candidate loses: the insert is discarded, the old row returned.
    let second = Issue::new(4, "B".to_string(), "mb".to_string());
    let again = IssueFingerprintOverride::create_or_load(&mut store, 4, "fp", &second, 200);
    assert_eq!(again.issue_id, first.id);
    assert_eq!(again.first_seen, 100);
    assert_eq!(store.override_count(), 1);

    let loaded = IssueFingerprintOverride::load(&store, 4, "fp").unwrap();
    assert_eq!(loaded.issue_id, first.id);
    assert!(IssueFingerprintOverride::load(&store, 4, "other").is_none());
    assert!(IssueFingerprintOverride::load(&store, 5, "fp").is_none());
}

#[test]
fn output_carries_the_event_through() {
    let ev = event("abc123", "TypeError", "x is undefined");
    let out = ev.to_output(42);
    assert_eq!(out.issue_id, 42);
    assert_eq!(out.fingerprint, "abc123");
    assert_eq!(out.exception_list.len(), 1);
    assert_eq!(out.exception_list[0].exception_type, "TypeError");
    assert_eq!(out.exception_list[0].exception_message, "x is undefined");
}

#[test]
fn losing_slow_path_still_reopens() {
    let mut store = Store::new();
    let mut reporter = SignalReporter::new();

    let first = resolve_issue(&mut store, &mut reporter, 1, event("abc123", "A", "m"), 0);
    store.set_status(first.issue_id, IssueStatus::Inactive);

    // A slow path racing against the established mapping loses, returns the
    // established issue, and still reopens it.
    let out = resolve_slow_path(&mut store, &mut reporter, 1, event("abc123", "A", "m"), 9);
    assert_eq!(out.issue_id, first.issue_id);
    assert_eq!(reporter.issues_reopened, 1);
    assert_eq!(reporter.issues_created, 1);
    assert_eq!(store.issue_count(), 1);
    assert_eq!(
        Issue::load(&store, 1, first.issue_id).unwrap().status,
        IssueStatus::Active
    );
}

use vstd::prelude::*;

use crate::model::{
    found_issue, found_override, issue_idx, loaded_issue, mapped_issue, override_idx,
    IssueView, OverrideView,
};
use crate::store::Store;
use crate::types::{str_opt_view, FingerprintedErrProps, IssueStatus, OutputErrProps};

verus! {

/// Relies on `uuid::Uuid::new_v4` and `uuid::Uuid::as_u128`: a freshly drawn
/// random version-4 UUID, returned as its 128-bit value. A random draw
/// admits no contract beyond its type.
#[verifier::external_body]
fn fresh_id() -> u128 {
    uuid::Uuid::new_v4().as_u128()
}

/// The injected observer for the two externally visible signals. Each
/// counter moves by exactly one per real event: a row actually inserted, a
/// status transition that actually happened.
pub struct SignalReporter {
    pub issues_created: u64,
    pub issues_reopened: u64,
}

impl SignalReporter {
    /// A reporter that has seen nothing yet.
    pub fn new() -> (r: SignalReporter)
        ensures
            r.issues_created == 0,
            r.issues_reopened == 0,
    {
        SignalReporter { issues_created: 0, issues_reopened: 0 }
    }

    /// Record that an issue row was actually inserted.
    pub fn report_created(&mut self)
        requires
            old(self).issues_created < u64::MAX,
        ensures
            final(self).issues_created == old(self).issues_created + 1,
            final(self).issues_reopened == old(self).issues_reopened,
    {
        self.issues_created = self.issues_created + 1;
    }

    /// Record that an issue actually transitioned back to active.
    pub fn report_reopened(&mut self)
        requires
            old(self).issues_reopened < u64::MAX,
        ensures
            final(self).issues_reopened == old(self).issues_reopened + 1,
            final(self).issues_created == old(self).issues_created,
    {
        self.issues_reopened = self.issues_reopened + 1;
    }
}

/// The persisted mapping from (team, fingerprint) to an issue identity: the
/// unit of deduplication.
pub struct IssueFingerprintOverride {
    pub id: u128,
    pub team_id: i32,
    pub issue_id: u128,
    pub fingerprint: String,
    pub version: i64,
    pub first_seen: i64,
}

impl View for IssueFingerprintOverride {
    type V = OverrideView;

    open spec fn view(&self) -> OverrideView {
        OverrideView {
            id: self.id,
            team_id: self.team_id as int,
            issue_id: self.issue_id,
            fingerprint: self.fingerprint@,
            version: self.version,
            first_seen: self.first_seen,
        }
    }
}

impl Clone for IssueFingerprintOverride {
    fn clone(&self) -> (r: Self)
        ensures
            r@ == self@,
    {
        IssueFingerprintOverride {
            id: self.id,
            team_id: self.team_id,
            issue_id: self.issue_id,
            fingerprint: self.fingerprint.clone(),
            version: self.version,
            first_seen: self.first_seen,
        }
    }
}

/// One issue record: identity, team scope, status and the provisional
/// name and description derived at creation time.
pub struct Issue {
    pub id: u128,
    pub team_id: i32,
    pub status: IssueStatus,
    pub name: Option<String>,
    pub description: Option<String>,
}

impl View for Issue {
    type V = IssueView;

    open spec fn view(&self) -> IssueView {
        IssueView {
            id: self.id,
            team_id: self.team_id as int,
            status: self.status,
            name: str_opt_view(self.name),
            description: str_opt_view(self.description),
        }
    }
}

fn clone_opt_string(s: &Option<String>) -> (r: Option<String>)
    ensures
        str_opt_view(r) == str_opt_view(*s),
{
    match s {
        Some(x) => Some(x.clone()),
        None => None,
    }
}

impl Clone for Issue {
    fn clone(&self) -> (r: Self)
        ensures
            r@ == self@,
    {
        Issue {
            id: self.id,
            team_id: self.team_id,
            status: self.status,
            name: clone_opt_string(&self.name),
            description: clone_opt_string(&self.description),
        }
    }
}

impl Issue {
    /// A candidate issue for a first-seen fingerprint: freshly generated
    /// identity, active status, provisional name and description.
    pub fn new(team_id: i32, name: String, description: String) -> (r: Issue)
        ensures
            r@.team_id == team_id as int,
            r@.status == IssueStatus::Active,
            r@.name == Some(name@),
            r@.description == Some(description@),
    {
        Issue {
            id: fresh_id(),
            team_id,
            status: IssueStatus::Active,
            name: Some(name),
            description: Some(description),
        }
    }

    /// The fast-path lookup: join the override mapping for (team,
    /// fingerprint) to the issue relation by identity.
    pub fn load_by_fingerprint(store: &Store, team_id: i32, fingerprint: &str) -> (r: Option<
        Issue,
    >)
        ensures
            match r {
                Some(iss) => mapped_issue(store@, team_id as int, fingerprint@) == Some(iss@),
                None => mapped_issue(store@, team_id as int, fingerprint@) is None,
            },
    {
        match store.override_index(team_id, fingerprint) {
            Some(oi) => {
                let issue_id = store.override_at(oi).issue_id;
                proof {
                    assert(found_override(store@.overrides, team_id as int, fingerprint@)
                        == Some(store@.overrides[oi as int]));
                }
                match store.issue_index(issue_id) {
                    Some(i) => {
                        proof {
                            assert(found_issue(store@.issues, issue_id) == Some(
                                store@.issues[i as int],
                            ));
                        }
                        Some(store.issue_at(i).clone())
                    },
                    None => None,
                }
            },
            None => None,
        }
    }

    /// Direct lookup by identity, scoped to the team.
    pub fn load(store: &Store, team_id: i32, issue_id: u128) -> (r: Option<Issue>)
        ensures
            match r {
                Some(iss) => loaded_issue(store@.issues, team_id as int, issue_id) == Some(iss@),
                None => loaded_issue(store@.issues, team_id as int, issue_id) is None,
            },
    {
        match store.issue_index(issue_id) {
            Some(i) => {
                if store.issue_at(i).team_id == team_id {
                    Some(store.issue_at(i).clone())
                } else {
                    None
                }
            },
            None => None,
        }
    }

    /// Insert the issue row. A duplicate identity is an idempotent no-op.
    /// The created signal fires exactly when an insert actually happened.
    pub fn insert(&self, store: &mut Store, reporter: &mut SignalReporter) -> (did_insert: bool)
        requires
            old(reporter).issues_created < u64::MAX,
        ensures
            did_insert == (issue_idx(old(store)@.issues, self.id) is None),
            did_insert ==> final(store)@.issues == old(store)@.issues.push(self@)
                && final(reporter).issues_created == old(reporter).issues_created + 1,
            !did_insert ==> final(store)@ == old(store)@ && final(reporter).issues_created == old(
                reporter,
            ).issues_created,
            final(store)@.overrides == old(store)@.overrides,
            final(reporter).issues_reopened == old(reporter).issues_reopened,
    {
        match store.issue_index(self.id) {
            Some(_) => false,
            None => {
                store.push_issue(self.clone());
                reporter.report_created();
                true
            },
        }
    }

    /// Atomically transition the issue's status from not-active back to
    /// active, keyed by identity alone; a no-op if the row is already
    /// active or gone. The reopened signal fires exactly when a transition
    /// happened.
    pub fn maybe_reopen(&self, store: &mut Store, reporter: &mut SignalReporter) -> (reopened:
        bool)
        requires
            old(reporter).issues_reopened < u64::MAX,
        ensures
            crate::model::reopen_outcome(
                old(store)@.issues,
                final(store)@.issues,
                self.id,
                old(reporter).issues_reopened,
                final(reporter).issues_reopened,
            ),
            reopened == (match issue_idx(old(store)@.issues, self.id) {
                Some(i) => old(store)@.issues[i].status != IssueStatus::Active,
                None => false,
            }),
            final(store)@.overrides == old(store)@.overrides,
            final(reporter).issues_created == old(reporter).issues_created,
    {
        match store.issue_index(self.id) {
            Some(i) => {
                if store.issue_at(i).status != IssueStatus::Active {
                    store.activate_issue(i);
                    reporter.report_reopened();
                    true
                } else {
                    false
                }
            },
            None => false,
        }
    }
}

impl IssueFingerprintOverride {
    /// Direct lookup of the override row for (team, fingerprint).
    pub fn load(store: &Store, team_id: i32, fingerprint: &str) -> (r: Option<
        IssueFingerprintOverride,
    >)
        ensures
            match r {
                Some(o) => found_override(store@.overrides, team_id as int, fingerprint@) == Some(
                    o@,
                ),
                None => found_override(store@.overrides, team_id as int, fingerprint@) is None,
            },
    {
        match store.override_index(team_id, fingerprint) {
            Some(i) => Some(store.override_at(i).clone()),
            None => None,
        }
    }

    /// Insert a new override row bound to the candidate issue, unless the
    /// (team, fingerprint) key already holds one; in that case the insert is
    /// discarded and the pre-existing row is returned. Callers with a fresh
    /// candidate identity tell the two outcomes apart by comparing the
    /// returned row's issue identity against the candidate's.
    pub fn create_or_load(
        store: &mut Store,
        team_id: i32,
        fingerprint: &str,
        issue: &Issue,
        first_seen: i64,
    ) -> (r: IssueFingerprintOverride)
        ensures
            final(store)@.issues == old(store)@.issues,
            match override_idx(old(store)@.overrides, team_id as int, fingerprint@) {
                Some(i) => r@ == old(store)@.overrides[i] && final(store)@ == old(store)@,
                None => {
                    &&& r@.team_id == team_id as int
                    &&& r@.fingerprint == fingerprint@
                    &&& r@.issue_id == issue.id
                    &&& r@.version == 0
                    &&& r@.first_seen == first_seen
                    &&& final(store)@.overrides == old(store)@.overrides.push(r@)
                },
            },
    {
        match store.override_index(team_id, fingerprint) {
            Some(i) => store.override_at(i).clone(),
            None => {
                let row = IssueFingerprintOverride {
                    id: fresh_id(),
                    team_id,
                    issue_id: issue.id,
                    fingerprint: fingerprint.to_owned(),
                    version: 0,
                    first_seen,
                };
                let copy = row.clone();
                store.push_override(row);
                copy
            },
        }
    }
}

/// The slow path: derive a provisional name and description from the first
/// exception entry, create a candidate issue under a fresh identity, and let
/// the override relation's unique key arbitrate the race. The candidate
/// issue row becomes visible only when the override insert goes through,
/// which stands in for the surrounding transaction (commit on a win,
/// rollback on a loss): nothing speculative is ever observable and no
/// signal fires for the losing side. Afterwards the issue is re-fetched by
/// the identity the override records and conditionally reopened; a missing
/// issue at that point is a harmless no-op.
pub fn resolve_slow_path(
    store: &mut Store,
    reporter: &mut SignalReporter,
    team_id: i32,
    fingerprinted: FingerprintedErrProps,
    event_timestamp: i64,
) -> (r: OutputErrProps)
    requires
        fingerprinted.exception_list@.len() > 0,
        old(reporter).issues_created < u64::MAX,
        old(reporter).issues_reopened < u64::MAX,
    ensures
        crate::model::slow_path_post(
            old(store)@,
            final(store)@,
            team_id as int,
            fingerprinted@.fingerprint,
            fingerprinted@.exception_list,
            event_timestamp,
            old(reporter).issues_created,
            final(reporter).issues_created,
            old(reporter).issues_reopened,
            final(reporter).issues_reopened,
            r.issue_id,
        ),
        r@.fingerprint == fingerprinted@.fingerprint,
        r@.exception_list == fingerprinted@.exception_list,
    {
    let ghost pre = old(store)@;
    let ghost team: int = team_id as int;
    let ghost fp = fingerprinted@.fingerprint;
    let ghost excs = fingerprinted@.exception_list;
    let ghost c0 = old(reporter).issues_created;
    let ghost rp0 = old(reporter).issues_reopened;

    let first_type = fingerprinted.exception_list[0].exception_type.clone();
    let first_message = fingerprinted.exception_list[0].exception_message.clone();
    let issue = Issue::new(team_id, first_type, first_message);
    proof {
        assert(excs[0] == fingerprinted.exception_list@[0]@);
    }

    let won = IssueFingerprintOverride::load(
        store,
        team_id,
        fingerprinted.fingerprint.as_str(),
    ).is_none();
    let issue_override = IssueFingerprintOverride::create_or_load(
        store,
        team_id,
        fingerprinted.fingerprint.as_str(),
        &issue,
        event_timestamp,
    );
    if won {
        issue.insert(store, reporter);
    }
    let resolved_id = issue_override.issue_id;
    let ghost mid = store@;
    let ghost rp_mid = reporter.issues_reopened;

    match Issue::load(store, team_id, resolved_id) {
        Some(found) => {
            found.maybe_reopen(store, reporter);
            proof {
                crate::model::lemma_issue_idx_props(mid.issues, resolved_id);
                assert(crate::model::team_reopen_outcome(
                    mid.issues,
                    store@.issues,
                    resolved_id,
                    team,
                    rp_mid,
                    reporter.issues_reopened,
                ));
            }
        },
        None => {
            proof {
                assert(crate::model::team_reopen_outcome(
                    mid.issues,
                    store@.issues,
                    resolved_id,
                    team,
                    rp_mid,
                    reporter.issues_reopened,
                ));
            }
        },
    }

    proof {
        if override_idx(pre.overrides, team, fp) is None {
            assert(won);
            if issue_idx(pre.issues, issue.id) is None {
                crate::model::lemma_issue_idx_push(
                    pre.issues,
                    issue.id,
                    crate::model::new_issue_view(issue.id, team, excs),
                );
                assert(issue@ == crate::model::new_issue_view(issue.id, team, excs));
            }
            assert(crate::model::slow_path_won(
                pre,
                store@,
                team,
                fp,
                excs,
                event_timestamp,
                c0,
                reporter.issues_created,
                rp0,
                reporter.issues_reopened,
                resolved_id,
                issue_override@,
            ));
        }
    }
    fingerprinted.to_output(resolved_id)
}

/// Resolve a fingerprinted event to its canonical issue identity. The fast
/// path returns the already-mapped issue, reopening it if it is not active;
/// a fingerprint unseen by this team takes the slow path. The event's
/// exception list must be non-empty whenever the slow path can run: that is
/// the caller's contract.
pub fn resolve_issue(
    store: &mut Store,
    reporter: &mut SignalReporter,
    team_id: i32,
    fingerprinted: FingerprintedErrProps,
    event_timestamp: i64,
) -> (r: OutputErrProps)
    requires
        mapped_issue(old(store)@, team_id as int, fingerprinted@.fingerprint) is None
            ==> fingerprinted.exception_list@.len() > 0,
        old(reporter).issues_created < u64::MAX,
        old(reporter).issues_reopened < u64::MAX,
    ensures
        crate::model::resolve_post(
            old(store)@,
            final(store)@,
            team_id as int,
            fingerprinted@.fingerprint,
            fingerprinted@.exception_list,
            event_timestamp,
            old(reporter).issues_created,
            final(reporter).issues_created,
            old(reporter).issues_reopened,
            final(reporter).issues_reopened,
            r.issue_id,
        ),
        r@.fingerprint == fingerprinted@.fingerprint,
        r@.exception_list == fingerprinted@.exception_list,
    {
    let ghost pre = old(store)@;
    let ghost team: int = team_id as int;
    let ghost fp = fingerprinted@.fingerprint;

    let maybe = Issue::load_by_fingerprint(store, team_id, fingerprinted.fingerprint.as_str());
    match maybe {
        Some(existing) => {
            existing.maybe_reopen(store, reporter);
            proof {
                let o = found_override(pre.overrides, team, fp).unwrap();
                crate::model::lemma_issue_idx_props(pre.issues, o.issue_id);
                assert(existing.id == o.issue_id);
            }
            fingerprinted.to_output(existing.id)
        },
        None => resolve_slow_path(store, reporter, team_id, fingerprinted, event_timestamp),
    }
}

} // verus!

use vstd::prelude::*;

use crate::issue_resolution::{Issue, IssueFingerprintOverride};
use crate::model::{
    activated, issue_idx, lemma_issue_idx_first_match, lemma_override_idx_first_match,
    override_idx, IssueView, OverrideView, StoreView,
};
use crate::types::IssueStatus;

verus! {

/// Relies on `str`'s equality operator: two string slices are equal exactly
/// when their character sequences are.
#[verifier::external_body]
fn str_eq(a: &str, b: &str) -> (r: bool)
    ensures
        r == (a@ == b@),
{
    a == b
}

/// The storage layer: the two persisted relations the resolver works
/// against, with the uniqueness constraints of the backing store expressed
/// in `StoreView::wf`. Issue identities are the primary key of the issue
/// relation; (team, fingerprint) is the unique key of the override relation.
pub struct Store {
    issues: Vec<Issue>,
    overrides: Vec<IssueFingerprintOverride>,
}

impl View for Store {
    type V = StoreView;

    closed spec fn view(&self) -> StoreView {
        StoreView {
            issues: self.issues@.map_values(|i: Issue| i@),
            overrides: self.overrides@.map_values(|o: IssueFingerprintOverride| o@),
        }
    }
}

impl Store {
    /// An empty store: no issues, no overrides.
    pub fn new() -> (s: Store)
        ensures
            s@.issues.len() == 0,
            s@.overrides.len() == 0,
            s@.wf(),
    {
        Store { issues: Vec::new(), overrides: Vec::new() }
    }

    /// How many issue rows exist.
    pub fn issue_count(&self) -> (n: usize)
        ensures
            n == self@.issues.len(),
    {
        self.issues.len()
    }

    /// How many override rows exist.
    pub fn override_count(&self) -> (n: usize)
        ensures
            n == self@.overrides.len(),
    {
        self.overrides.len()
    }

    /// Position of the issue row with the given identity, if one exists.
    pub(crate) fn issue_index(&self, id: u128) -> (r: Option<usize>)
        ensures
            match r {
                Some(i) => i < self@.issues.len() && issue_idx(self@.issues, id) == Some(i as int),
                None => issue_idx(self@.issues, id) is None,
            },
    {
        let ghost v = self@.issues;
        let mut i: usize = 0;
        while i < self.issues.len()
            invariant
                i <= self.issues.len(),
                v == self@.issues,
                v.len() == self.issues.len(),
                forall|k: int| 0 <= k < i ==> v[k].id != id,
            decreases self.issues.len() - i,
        {
            proof {
                assert(v[i as int] == self.issues@[i as int]@);
            }
            if self.issues[i].id == id {
                proof {
                    lemma_issue_idx_first_match(v, id, i as int);
                }
                return Some(i);
            }
            i += 1;
        }
        proof {
            lemma_issue_idx_first_match(v, id, v.len() as int);
        }
        None
    }

    /// Position of the override row with the given (team, fingerprint) key,
    /// if one exists.
    pub(crate) fn override_index(&self, team_id: i32, fingerprint: &str) -> (r: Option<usize>)
        ensures
            match r {
                Some(i) => i < self@.overrides.len() && override_idx(
                    self@.overrides,
                    team_id as int,
                    fingerprint@,
                ) == Some(i as int),
                None => override_idx(self@.overrides, team_id as int, fingerprint@) is None,
            },
    {
        let ghost v = self@.overrides;
        let mut i: usize = 0;
        while i < self.overrides.len()
            invariant
                i <= self.overrides.len(),
                v == self@.overrides,
                v.len() == self.overrides.len(),
                forall|k: int|
                    0 <= k < i ==> !(v[k].team_id == team_id as int && v[k].fingerprint
                        == fingerprint@),
            decreases self.overrides.len() - i,
        {
            proof {
                assert(v[i as int] == self.overrides@[i as int]@);
            }
            if self.overrides[i].team_id == team_id && str_eq(
                self.overrides[i].fingerprint.as_str(),
                fingerprint,
            ) {
                proof {
                    lemma_override_idx_first_match(v, team_id as int, fingerprint@, i as int);
                }
                return Some(i);
            }
            i += 1;
        }
        proof {
            lemma_override_idx_first_match(v, team_id as int, fingerprint@, v.len() as int);
        }
        None
    }

    /// Read access to one issue row.
    pub(crate) fn issue_at(&self, i: usize) -> (r: &Issue)
        requires
            i < self@.issues.len(),
        ensures
            r@ == self@.issues[i as int],
    {
        proof {
            assert(self@.issues[i as int] == self.issues@[i as int]@);
        }
        &self.issues[i]
    }

    /// Read access to one override row.
    pub(crate) fn override_at(&self, i: usize) -> (r: &IssueFingerprintOverride)
        requires
            i < self@.overrides.len(),
        ensures
            r@ == self@.overrides[i as int],
    {
        proof {
            assert(self@.overrides[i as int] == self.overrides@[i as int]@);
        }
        &self.overrides[i]
    }

    /// Append an issue row.
    pub(crate) fn push_issue(&mut self, issue: Issue)
        ensures
            final(self)@.issues == old(self)@.issues.push(issue@),
            final(self)@.overrides == old(self)@.overrides,
    {
        self.issues.push(issue);
        proof {
            assert(self@.issues =~= old(self)@.issues.push(issue@));
        }
    }

    /// Append an override row.
    pub(crate) fn push_override(&mut self, row: IssueFingerprintOverride)
        ensures
            final(self)@.overrides == old(self)@.overrides.push(row@),
            final(self)@.issues == old(self)@.issues,
    {
        self.overrides.push(row);
        proof {
            assert(self@.overrides =~= old(self)@.overrides.push(row@));
        }
    }

    /// Flip one issue row's status back to active.
    pub(crate) fn activate_issue(&mut self, i: usize)
        requires
            i < old(self)@.issues.len(),
        ensures
            final(self)@.issues == old(self)@.issues.update(
                i as int,
                activated(old(self)@.issues[i as int]),
            ),
            final(self)@.overrides == old(self)@.overrides,
    {
        proof {
            assert(old(self)@.issues[i as int] == old(self).issues@[i as int]@);
        }
        self.issues[i].status = IssueStatus::Active;
        proof {
            assert(self@.issues =~= old(self)@.issues.update(
                i as int,
                activated(old(self)@.issues[i as int]),
            ));
        }
    }

    /// Overwrite one issue row's status, the hook through which the external
    /// issue-resolution workflow (out of this core's scope) marks an issue
    /// not active. Returns whether a row with that identity existed.
    pub fn set_status(&mut self, issue_id: u128, status: IssueStatus) -> (changed: bool)
        ensures
            match issue_idx(old(self)@.issues, issue_id) {
                None => !changed && final(self)@ == old(self)@,
                Some(i) => changed && final(self)@.issues == old(self)@.issues.update(
                    i,
                    (IssueView { status, ..old(self)@.issues[i] }),
                ) && final(self)@.overrides == old(self)@.overrides,
            },
    {
        match self.issue_index(issue_id) {
            Some(i) => {
                proof {
                    assert(old(self)@.issues[i as int] == old(self).issues@[i as int]@);
                }
                self.issues[i].status = status;
                proof {
                    assert(self@.issues =~= old(self)@.issues.update(
                        i as int,
                        (IssueView { status, ..old(self)@.issues[i as int] }),
                    ));
                }
                true
            },
            None => false,
        }
    }
}

} // verus!

use vstd::prelude::*;

use crate::types::IssueStatus;

verus! {

// ---------------------------------------------------------------------------
// Mathematical views of the persisted data.
// ---------------------------------------------------------------------------

/// One exception entry of a fingerprinted event, as a mathematical value.
pub ghost struct ExceptionView {
    pub exception_type: Seq<char>,
    pub exception_message: Seq<char>,
}

/// One issue row, as a mathematical value.
pub ghost struct IssueView {
    pub id: u128,
    pub team_id: int,
    pub status: IssueStatus,
    pub name: Option<Seq<char>>,
    pub description: Option<Seq<char>>,
}

/// One fingerprint-override row, as a mathematical value.
pub ghost struct OverrideView {
    pub id: u128,
    pub team_id: int,
    pub issue_id: u128,
    pub fingerprint: Seq<char>,
    pub version: i64,
    pub first_seen: i64,
}

/// The two persisted relations of the storage layer.
pub ghost struct StoreView {
    pub issues: Seq<IssueView>,
    pub overrides: Seq<OverrideView>,
}

// ---------------------------------------------------------------------------
// Lookups, stated as first-match searches over the relations.
// ---------------------------------------------------------------------------

/// Index of the first issue row with the given identity, if any.
pub open spec fn issue_idx(s: Seq<IssueView>, id: u128) -> Option<int>
    decreases s.len(),
{
    if s.len() == 0 {
        None
    } else if s[0].id == id {
        Some(0)
    } else {
        match issue_idx(s.drop_first(), id) {
            Some(i) => Some(i + 1),
            None => None,
        }
    }
}

/// The first issue row with the given identity, if any.
pub open spec fn found_issue(s: Seq<IssueView>, id: u128) -> Option<IssueView> {
    match issue_idx(s, id) {
        Some(i) => Some(s[i]),
        None => None,
    }
}

/// Index of the first override row with the given (team, fingerprint) key.
pub open spec fn override_idx(s: Seq<OverrideView>, team: int, fp: Seq<char>) -> Option<int>
    decreases s.len(),
{
    if s.len() == 0 {
        None
    } else if s[0].team_id == team && s[0].fingerprint == fp {
        Some(0)
    } else {
        match override_idx(s.drop_first(), team, fp) {
            Some(i) => Some(i + 1),
            None => None,
        }
    }
}

/// The first override row with the given (team, fingerprint) key, if any.
pub open spec fn found_override(s: Seq<OverrideView>, team: int, fp: Seq<char>) -> Option<
    OverrideView,
> {
    match override_idx(s, team, fp) {
        Some(i) => Some(s[i]),
        None => None,
    }
}

/// The issue a fingerprint maps to: the override row joined to the issue
/// relation by identity alone, as the fast-path lookup reads it.
pub open spec fn mapped_issue(s: StoreView, team: int, fp: Seq<char>) -> Option<IssueView> {
    match found_override(s.overrides, team, fp) {
        Some(o) => found_issue(s.issues, o.issue_id),
        None => None,
    }
}

/// The issue a team-scoped direct lookup returns: the row with the given
/// identity, provided it belongs to the given team.
pub open spec fn loaded_issue(s: Seq<IssueView>, team: int, id: u128) -> Option<IssueView> {
    match issue_idx(s, id) {
        Some(i) => if s[i].team_id == team {
            Some(s[i])
        } else {
            None
        },
        None => None,
    }
}

/// How many override rows carry the given (team, fingerprint) key.
pub open spec fn override_key_count(s: Seq<OverrideView>, team: int, fp: Seq<char>) -> nat
    decreases s.len(),
{
    if s.len() == 0 {
        0
    } else {
        (if s[0].team_id == team && s[0].fingerprint == fp {
            1nat
        } else {
            0nat
        }) + override_key_count(s.drop_first(), team, fp)
    }
}

// ---------------------------------------------------------------------------
// Well-formedness: what the backing store's constraints enforce.
// ---------------------------------------------------------------------------

/// Issue identities are globally unique (the primary key).
pub open spec fn issues_wf(s: Seq<IssueView>) -> bool {
    forall|i: int, j: int|
        #![trigger s[i], s[j]]
        0 <= i < j < s.len() ==> s[i].id != s[j].id
}

/// The (team, fingerprint) pair is unique across override rows.
pub open spec fn overrides_wf(s: Seq<OverrideView>) -> bool {
    forall|i: int, j: int|
        #![trigger s[i], s[j]]
        0 <= i < j < s.len() ==> !(s[i].team_id == s[j].team_id && s[i].fingerprint
            == s[j].fingerprint)
}

impl StoreView {
    /// Both uniqueness constraints hold.
    pub open spec fn wf(self) -> bool {
        issues_wf(self.issues) && overrides_wf(self.overrides)
    }
}

// ---------------------------------------------------------------------------
// Transition predicates: what each operation of the resolver does.
// ---------------------------------------------------------------------------

/// The given issue with its status forced back to active.
pub open spec fn activated(v: IssueView) -> IssueView {
    IssueView { status: IssueStatus::Active, ..v }
}

/// The issue row a slow-path winner creates from the event's first exception.
pub open spec fn new_issue_view(id: u128, team: int, excs: Seq<ExceptionView>) -> IssueView {
    IssueView {
        id,
        team_id: team,
        status: IssueStatus::Active,
        name: Some(excs[0].exception_type),
        description: Some(excs[0].exception_message),
    }
}

/// Effect of a conditional reopen keyed by identity alone: the issue flips to
/// active and the reopened counter moves by one exactly when the row exists
/// and is not active; otherwise nothing changes.
pub open spec fn reopen_outcome(
    pre: Seq<IssueView>,
    post: Seq<IssueView>,
    id: u128,
    rp0: u64,
    rp1: u64,
) -> bool {
    match issue_idx(pre, id) {
        None => post == pre && rp1 == rp0,
        Some(i) => if pre[i].status == IssueStatus::Active {
            post == pre && rp1 == rp0
        } else {
            post == pre.update(i, activated(pre[i])) && rp1 == rp0 + 1
        },
    }
}

/// Effect of a reopen reached through a team-scoped load: as `reopen_outcome`,
/// but nothing happens when the row's team differs from the caller's.
pub open spec fn team_reopen_outcome(
    pre: Seq<IssueView>,
    post: Seq<IssueView>,
    id: u128,
    team: int,
    rp0: u64,
    rp1: u64,
) -> bool {
    match issue_idx(pre, id) {
        None => post == pre && rp1 == rp0,
        Some(i) => if pre[i].team_id == team && pre[i].status != IssueStatus::Active {
            post == pre.update(i, activated(pre[i])) && rp1 == rp0 + 1
        } else {
            post == pre && rp1 == rp0
        },
    }
}

/// A slow-path run that found no override row and so won the race with some
/// candidate override row `row` (its own identity and the candidate issue
/// identity are freshly generated, hence not pinned here).
pub open spec fn slow_path_won(
    pre: StoreView,
    post: StoreView,
    team: int,
    fp: Seq<char>,
    excs: Seq<ExceptionView>,
    ts: i64,
    c0: u64,
    c1: u64,
    rp0: u64,
    rp1: u64,
    result: u128,
    row: OverrideView,
) -> bool {
    &&& row.team_id == team
    &&& row.fingerprint == fp
    &&& row.issue_id == result
    &&& row.version == 0
    &&& row.first_seen == ts
    &&& post.overrides == pre.overrides.push(row)
    &&& match issue_idx(pre.issues, row.issue_id) {
        None => {
            // The candidate identity is fresh: the new issue row persists and
            // the created signal fires once; the issue is active, so the
            // trailing reopen is a no-op.
            &&& post.issues == pre.issues.push(new_issue_view(row.issue_id, team, excs))
            &&& c1 == c0 + 1
            &&& rp1 == rp0
        },
        Some(_) => {
            // The freshly drawn identity collided with an existing issue row:
            // the insert is an idempotent no-op, no created signal fires, and
            // the pre-existing issue is reopened if its team matches.
            &&& c1 == c0
            &&& team_reopen_outcome(pre.issues, post.issues, row.issue_id, team, rp0, rp1)
        },
    }
}

/// Effect of one slow-path run: the override table is the sole arbiter.
/// If a row for (team, fp) already exists, the run lost: it changes no row
/// except a possible reopen of the established issue, fires no created
/// signal, and returns the established issue identity. Otherwise it won with
/// some candidate row.
pub open spec fn slow_path_post(
    pre: StoreView,
    post: StoreView,
    team: int,
    fp: Seq<char>,
    excs: Seq<ExceptionView>,
    ts: i64,
    c0: u64,
    c1: u64,
    rp0: u64,
    rp1: u64,
    result: u128,
) -> bool {
    match override_idx(pre.overrides, team, fp) {
        Some(oi) => {
            &&& result == pre.overrides[oi].issue_id
            &&& post.overrides == pre.overrides
            &&& c1 == c0
            &&& team_reopen_outcome(pre.issues, post.issues, result, team, rp0, rp1)
        },
        None => exists|row: OverrideView|
            slow_path_won(pre, post, team, fp, excs, ts, c0, c1, rp0, rp1, result, row),
    }
}

/// Effect of one full resolve call. When the fast-path join finds an issue,
/// the call returns its identity and conditionally reopens it, touching
/// nothing else. Otherwise the slow path runs.
pub open spec fn resolve_post(
    pre: StoreView,
    post: StoreView,
    team: int,
    fp: Seq<char>,
    excs: Seq<ExceptionView>,
    ts: i64,
    c0: u64,
    c1: u64,
    rp0: u64,
    rp1: u64,
    result: u128,
) -> bool {
    if mapped_issue(pre, team, fp) is Some {
        match override_idx(pre.overrides, team, fp) {
            Some(oi) => {
                &&& result == pre.overrides[oi].issue_id
                &&& post.overrides == pre.overrides
                &&& c1 == c0
                &&& reopen_outcome(pre.issues, post.issues, result, rp0, rp1)
            },
            None => false,
        }
    } else {
        slow_path_post(pre, post, team, fp, excs, ts, c0, c1, rp0, rp1, result)
    }
}

// ---------------------------------------------------------------------------
// Facts about the first-match searches.
// ---------------------------------------------------------------------------

/// What an issue search result means, row by row.
pub proof fn lemma_issue_idx_props(s: Seq<IssueView>, id: u128)
    ensures
        match issue_idx(s, id) {
            Some(i) => 0 <= i < s.len() && s[i].id == id && (forall|k: int|
                0 <= k < i ==> s[k].id != id),
            None => forall|k: int| 0 <= k < s.len() ==> s[k].id != id,
        },
    decreases s.len(),
{
    if s.len() == 0 {
    } else if s[0].id == id {
    } else {
        let t = s.drop_first();
        lemma_issue_idx_props(t, id);
        match issue_idx(s, id) {
            Some(i) => {
                assert(s[i] == t[i - 1]);
                assert forall|k: int| 0 <= k < i implies s[k].id != id by {
                    if k > 0 {
                        assert(s[k] == t[k - 1]);
                    }
                }
            },
            None => {
                assert forall|k: int| 0 <= k < s.len() implies s[k].id != id by {
                    if k > 0 {
                        assert(s[k] == t[k - 1]);
                    }
                }
            },
        }
    }
}

/// Appending a row leaves earlier matches in place; a fresh identity is found
/// at the end exactly when it was absent before.
pub proof fn lemma_issue_idx_push(s: Seq<IssueView>, id: u128, v: IssueView)
    ensures
        issue_idx(s.push(v), id) == (match issue_idx(s, id) {
            Some(i) => Some(i),
            None => if v.id == id {
                Some(s.len() as int)
            } else {
                None::<int>
            },
        }),
    decreases s.len(),
{
    if s.len() == 0 {
        assert(s.push(v)[0] == v);
        assert(s.push(v).len() == 1);
        assert(s.push(v).drop_first().len() == 0);
        assert(issue_idx(s, id) is None);
        if v.id == id {
            assert(issue_idx(s.push(v), id) == Some(0int));
        } else {
            assert(issue_idx(s.push(v).drop_first(), id) is None);
            assert(issue_idx(s.push(v), id) is None);
        }
    } else {
        let t = s.drop_first();
        assert(s.push(v)[0] == s[0]);
        assert(s.push(v).drop_first() =~= t.push(v));
        lemma_issue_idx_push(t, id, v);
        if s[0].id == id {
            assert(issue_idx(s.push(v), id) == Some(0int));
            assert(issue_idx(s, id) == Some(0int));
        }
        if s[0].id != id {
            match issue_idx(t, id) {
                Some(i) => {
                    assert(issue_idx(s, id) == Some(i + 1));
                    assert(issue_idx(t.push(v), id) == Some(i));
                    assert(issue_idx(s.push(v), id) == Some(i + 1));
                },
                None => {
                    assert(issue_idx(s, id) is None);
                    if v.id == id {
                        assert(issue_idx(t.push(v), id) == Some(t.len() as int));
                        assert(issue_idx(s.push(v), id) == Some(t.len() + 1 as int));
                    } else {
                        assert(issue_idx(t.push(v), id) is None);
                        assert(issue_idx(s.push(v), id) is None);
                    }
                },
            }
        }
    }
}

/// Updating a row without changing its identity moves no search index, and
/// only the search for that identity sees the new row.
pub proof fn lemma_issue_idx_update(s: Seq<IssueView>, j: int, v: IssueView, id: u128)
    requires
        0 <= j < s.len(),
        s[j].id == v.id,
    ensures
        issue_idx(s.update(j, v), id) == issue_idx(s, id),
    decreases s.len(),
{
    let t = s.update(j, v);
    if j == 0 {
        assert(t[0].id == s[0].id);
        if s[0].id != id {
            assert(t.drop_first() =~= s.drop_first());
        }
    } else {
        assert(t[0] == s[0]);
        if s[0].id != id {
            assert(t.drop_first() =~= s.drop_first().update(j - 1, v));
            lemma_issue_idx_update(s.drop_first(), j - 1, v, id);
        }
    }
}

/// What an override search result means, row by row.
pub proof fn lemma_override_idx_props(s: Seq<OverrideView>, team: int, fp: Seq<char>)
    ensures
        match override_idx(s, team, fp) {
            Some(i) => 0 <= i < s.len() && s[i].team_id == team && s[i].fingerprint == fp && (
            forall|k: int| 0 <= k < i ==> !(s[k].team_id == team && s[k].fingerprint == fp)),
            None => forall|k: int|
                0 <= k < s.len() ==> !(s[k].team_id == team && s[k].fingerprint == fp),
        },
    decreases s.len(),
{
    if s.len() == 0 {
    } else if s[0].team_id == team && s[0].fingerprint == fp {
    } else {
        let t = s.drop_first();
        lemma_override_idx_props(t, team, fp);
        match override_idx(s, team, fp) {
            Some(i) => {
                assert(s[i] == t[i - 1]);
                assert forall|k: int| 0 <= k < i implies !(s[k].team_id == team
                    && s[k].fingerprint == fp) by {
                    if k > 0 {
                        assert(s[k] == t[k - 1]);
                    }
                }
            },
            None => {
                assert forall|k: int| 0 <= k < s.len() implies !(s[k].team_id == team
                    && s[k].fingerprint == fp) by {
                    if k > 0 {
                        assert(s[k] == t[k - 1]);
                    }
                }
            },
        }
    }
}

/// Appending an override row leaves earlier matches in place; a fresh key is
/// found at the end exactly when it was absent before.
pub proof fn lemma_override_idx_push(s: Seq<OverrideView>, team: int, fp: Seq<char>, v: OverrideView)
    ensures
        override_idx(s.push(v), team, fp) == (match override_idx(s, team, fp) {
            Some(i) => Some(i),
            None => if v.team_id == team && v.fingerprint == fp {
                Some(s.len() as int)
            } else {
                None::<int>
            },
        }),
    decreases s.len(),
{
    if s.len() == 0 {
        assert(s.push(v)[0] == v);
        assert(s.push(v).len() == 1);
        assert(s.push(v).drop_first().len() == 0);
        assert(override_idx(s, team, fp) is None);
        if v.team_id == team && v.fingerprint == fp {
            assert(override_idx(s.push(v), team, fp) == Some(0int));
        } else {
            assert(override_idx(s.push(v).drop_first(), team, fp) is None);
            assert(override_idx(s.push(v), team, fp) is None);
        }
    } else {
        let t = s.drop_first();
        assert(s.push(v)[0] == s[0]);
        assert(s.push(v).drop_first() =~= t.push(v));
        lemma_override_idx_push(t, team, fp, v);
        if s[0].team_id == team && s[0].fingerprint == fp {
            assert(override_idx(s.push(v), team, fp) == Some(0int));
            assert(override_idx(s, team, fp) == Some(0int));
        } else {
            match override_idx(t, team, fp) {
                Some(i) => {
                    assert(override_idx(s, team, fp) == Some(i + 1));
                    assert(override_idx(t.push(v), team, fp) == Some(i));
                    assert(override_idx(s.push(v), team, fp) == Some(i + 1));
                },
                None => {
                    assert(override_idx(s, team, fp) is None);
                    if v.team_id == team && v.fingerprint == fp {
                        assert(override_idx(t.push(v), team, fp) == Some(t.len() as int));
                        assert(override_idx(s.push(v), team, fp) == Some(t.len() + 1 as int));
                    } else {
                        assert(override_idx(t.push(v), team, fp) is None);
                        assert(override_idx(s.push(v), team, fp) is None);
                    }
                },
            }
        }
    }
}

/// A linear scan that saw no match up to `i` finds its first match at `i`,
/// and none at all if it ran off the end.
pub proof fn lemma_issue_idx_first_match(s: Seq<IssueView>, id: u128, i: int)
    requires
        0 <= i <= s.len(),
        forall|k: int| 0 <= k < i ==> s[k].id != id,
    ensures
        i == s.len() ==> issue_idx(s, id) is None,
        i < s.len() && s[i].id == id ==> issue_idx(s, id) == Some(i),
    decreases s.len(),
{
    if s.len() == 0 {
    } else if s[0].id == id {
        assert(i == 0);
    } else {
        if i > 0 {
            assert(forall|k: int| 0 <= k < i - 1 ==> s.drop_first()[k] == s[k + 1]);
            if i < s.len() {
                assert(s.drop_first()[i - 1] == s[i]);
            }
            lemma_issue_idx_first_match(s.drop_first(), id, i - 1);
        }
    }
}

/// The override-table counterpart of `lemma_issue_idx_first_match`.
pub proof fn lemma_override_idx_first_match(s: Seq<OverrideView>, team: int, fp: Seq<char>, i: int)
    requires
        0 <= i <= s.len(),
        forall|k: int| 0 <= k < i ==> !(s[k].team_id == team && s[k].fingerprint == fp),
    ensures
        i == s.len() ==> override_idx(s, team, fp) is None,
        i < s.len() && s[i].team_id == team && s[i].fingerprint == fp ==> override_idx(s, team, fp)
            == Some(i),
    decreases s.len(),
{
    if s.len() == 0 {
    } else if s[0].team_id == team && s[0].fingerprint == fp {
        assert(i == 0);
    } else {
        if i > 0 {
            assert(forall|k: int| 0 <= k < i - 1 ==> s.drop_first()[k] == s[k + 1]);
            if i < s.len() {
                assert(s.drop_first()[i - 1] == s[i]);
            }
            lemma_override_idx_first_match(s.drop_first(), team, fp, i - 1);
        }
    }
}

/// A key that no search finds occurs in no row at all.
pub proof fn lemma_override_key_count_zero(s: Seq<OverrideView>, team: int, fp: Seq<char>)
    requires
        override_idx(s, team, fp) is None,
    ensures
        override_key_count(s, team, fp) == 0,
    decreases s.len(),
{
    if s.len() > 0 {
        lemma_override_key_count_zero(s.drop_first(), team, fp);
    }
}

/// Appending a row raises the key's count by one exactly when the row
/// carries the key.
pub proof fn lemma_override_key_count_push(
    s: Seq<OverrideView>,
    team: int,
    fp: Seq<char>,
    v: OverrideView,
)
    ensures
        override_key_count(s.push(v), team, fp) == override_key_count(s, team, fp) + (
        if v.team_id == team && v.fingerprint == fp {
            1nat
        } else {
            0nat
        }),
    decreases s.len(),
{
    if s.len() == 0 {
        assert(s.push(v).drop_first() =~= s);
    } else {
        assert(s.push(v)[0] == s[0]);
        assert(s.push(v).drop_first() =~= s.drop_first().push(v));
        lemma_override_key_count_push(s.drop_first(), team, fp, v);
    }
}

} // verus!

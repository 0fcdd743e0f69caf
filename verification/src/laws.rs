use vstd::prelude::*;

use crate::model::{
    activated, found_override, issue_idx, issues_wf, lemma_issue_idx_props,
    lemma_issue_idx_push, lemma_issue_idx_update, lemma_override_idx_props,
    lemma_override_idx_push, lemma_override_key_count_push, lemma_override_key_count_zero,
    mapped_issue, new_issue_view, override_idx, override_key_count, overrides_wf, resolve_post,
    slow_path_won, ExceptionView, IssueView, OverrideView, StoreView,
};
use crate::types::IssueStatus;

verus! {

/// Updating one issue row without changing its identity keeps identities
/// unique.
proof fn lemma_update_keeps_issues_wf(s: Seq<IssueView>, i: int, v: IssueView)
    requires
        issues_wf(s),
        0 <= i < s.len(),
        s[i].id == v.id,
    ensures
        issues_wf(s.update(i, v)),
{
    let t = s.update(i, v);
    assert forall|a: int, b: int|
        #![trigger t[a], t[b]]
        0 <= a < b < t.len() implies t[a].id != t[b].id by {
        assert(s[a].id != s[b].id);
    }
}

/// Appending an issue row whose identity is absent keeps identities unique.
proof fn lemma_push_keeps_issues_wf(s: Seq<IssueView>, v: IssueView)
    requires
        issues_wf(s),
        issue_idx(s, v.id) is None,
    ensures
        issues_wf(s.push(v)),
{
    lemma_issue_idx_props(s, v.id);
    let t = s.push(v);
    assert forall|a: int, b: int|
        #![trigger t[a], t[b]]
        0 <= a < b < t.len() implies t[a].id != t[b].id by {
        if b == s.len() {
            assert(t[a] == s[a]);
            assert(t[b] == v);
        } else {
            assert(t[a] == s[a]);
            assert(t[b] == s[b]);
        }
    }
}

/// Appending an override row whose key is absent keeps keys unique.
proof fn lemma_push_keeps_overrides_wf(s: Seq<OverrideView>, v: OverrideView)
    requires
        overrides_wf(s),
        override_idx(s, v.team_id, v.fingerprint) is None,
    ensures
        overrides_wf(s.push(v)),
{
    lemma_override_idx_props(s, v.team_id, v.fingerprint);
    let t = s.push(v);
    assert forall|a: int, b: int|
        #![trigger t[a], t[b]]
        0 <= a < b < t.len() implies !(t[a].team_id == t[b].team_id && t[a].fingerprint
        == t[b].fingerprint) by {
        if b == s.len() {
            assert(t[a] == s[a]);
            assert(t[b] == v);
        } else {
            assert(t[a] == s[a]);
            assert(t[b] == s[b]);
        }
    }
}

/// Every resolve call preserves the backing store's uniqueness constraints.
pub proof fn lemma_resolve_post_wf(
    pre: StoreView,
    post: StoreView,
    team: int,
    fp: Seq<char>,
    excs: Seq<ExceptionView>,
    ts: i64,
    c0: u64,
    c1: u64,
    rp0: u64,
    rp1: u64,
    result: u128,
)
    requires
        pre.wf(),
        resolve_post(pre, post, team, fp, excs, ts, c0, c1, rp0, rp1, result),
    ensures
        post.wf(),
{
    lemma_issue_idx_props(pre.issues, result);
    if mapped_issue(pre, team, fp) is Some {
        match issue_idx(pre.issues, result) {
            Some(i) => {
                if pre.issues[i].status != IssueStatus::Active {
                    lemma_update_keeps_issues_wf(pre.issues, i, activated(pre.issues[i]));
                }
            },
            None => {},
        }
    } else {
        match override_idx(pre.overrides, team, fp) {
            Some(oi) => {
                match issue_idx(pre.issues, result) {
                    Some(i) => {
                        if pre.issues[i].team_id == team && pre.issues[i].status
                            != IssueStatus::Active {
                            lemma_update_keeps_issues_wf(pre.issues, i, activated(pre.issues[i]));
                        }
                    },
                    None => {},
                }
            },
            None => {
                let row = choose|row: OverrideView|
                    slow_path_won(pre, post, team, fp, excs, ts, c0, c1, rp0, rp1, result, row);
                lemma_override_idx_props(pre.overrides, team, fp);
                lemma_push_keeps_overrides_wf(pre.overrides, row);
                lemma_issue_idx_props(pre.issues, row.issue_id);
                match issue_idx(pre.issues, row.issue_id) {
                    None => {
                        lemma_push_keeps_issues_wf(
                            pre.issues,
                            new_issue_view(row.issue_id, team, excs),
                        );
                    },
                    Some(i) => {
                        if pre.issues[i].team_id == team && pre.issues[i].status
                            != IssueStatus::Active {
                            lemma_update_keeps_issues_wf(pre.issues, i, activated(pre.issues[i]));
                        }
                    },
                }
            },
        }
    }
}

/// Loser discard, and more generally stability of an established mapping:
/// once an override row for (team, fp) exists, a resolve call for that key
/// returns exactly the issue identity that row records, changes no override
/// row, fires no created signal, adds no issue row — in particular the
/// losing side's speculatively created issue row is never visible — and
/// moves no issue row's search position.
pub proof fn lemma_loser_discard(
    pre: StoreView,
    post: StoreView,
    team: int,
    fp: Seq<char>,
    excs: Seq<ExceptionView>,
    ts: i64,
    c0: u64,
    c1: u64,
    rp0: u64,
    rp1: u64,
    result: u128,
)
    requires
        pre.wf(),
        override_idx(pre.overrides, team, fp) is Some,
        resolve_post(pre, post, team, fp, excs, ts, c0, c1, rp0, rp1, result),
    ensures
        result == found_override(pre.overrides, team, fp).unwrap().issue_id,
        post.overrides == pre.overrides,
        c1 == c0,
        post.issues.len() == pre.issues.len(),
        forall|id: u128| issue_idx(post.issues, id) == issue_idx(pre.issues, id),
        post.wf(),
{
    lemma_resolve_post_wf(pre, post, team, fp, excs, ts, c0, c1, rp0, rp1, result);
    lemma_issue_idx_props(pre.issues, result);
    lemma_override_idx_props(pre.overrides, team, fp);
    let oi = override_idx(pre.overrides, team, fp).unwrap();
    if mapped_issue(pre, team, fp) is Some {
        match issue_idx(pre.issues, result) {
            Some(i) => {
                if pre.issues[i].status != IssueStatus::Active {
                    assert forall|id: u128|
                        issue_idx(post.issues, id) == issue_idx(pre.issues, id) by {
                        lemma_issue_idx_update(pre.issues, i, activated(pre.issues[i]), id);
                    }
                }
            },
            None => {},
        }
    } else {
        match issue_idx(pre.issues, result) {
            Some(i) => {
                if pre.issues[i].team_id == team && pre.issues[i].status != IssueStatus::Active {
                    assert forall|id: u128|
                        issue_idx(post.issues, id) == issue_idx(pre.issues, id) by {
                        lemma_issue_idx_update(pre.issues, i, activated(pre.issues[i]), id);
                    }
                }
            },
            None => {},
        }
    }
}

/// One step of a resolve trace: call `k` of the trace takes the store from
/// `stores[k]` to `stores[k + 1]` as one resolve call for (team, fp) does.
pub open spec fn resolve_trace_step(
    stores: Seq<StoreView>,
    created: Seq<u64>,
    reopened: Seq<u64>,
    results: Seq<u128>,
    events: Seq<Seq<ExceptionView>>,
    stamps: Seq<i64>,
    team: int,
    fp: Seq<char>,
    k: int,
) -> bool {
    resolve_post(
        stores[k],
        stores[k + 1],
        team,
        fp,
        events[k],
        stamps[k],
        created[k],
        created[k + 1],
        reopened[k],
        reopened[k + 1],
        results[k],
    )
}

/// The first resolve call for a fingerprint establishes its mapping: one
/// override row for (team, fp) exists afterwards, carrying the returned
/// identity; an issue row with that identity exists; at most one issue row
/// was added, and the created signal fired exactly when one was.
proof fn lemma_first_resolve(
    pre: StoreView,
    post: StoreView,
    team: int,
    fp: Seq<char>,
    excs: Seq<ExceptionView>,
    ts: i64,
    c0: u64,
    c1: u64,
    rp0: u64,
    rp1: u64,
    result: u128,
)
    requires
        pre.wf(),
        override_idx(pre.overrides, team, fp) is None,
        resolve_post(pre, post, team, fp, excs, ts, c0, c1, rp0, rp1, result),
    ensures
        (match found_override(post.overrides, team, fp) {
            Some(o) => o.issue_id == result,
            None => false,
        }),
        override_key_count(post.overrides, team, fp) == 1,
        issue_idx(post.issues, result) is Some,
        post.issues.len() <= pre.issues.len() + 1,
        c1 <= c0 + 1,
        (c1 == c0 + 1) == (post.issues.len() == pre.issues.len() + 1),
        post.wf(),
{
    lemma_resolve_post_wf(pre, post, team, fp, excs, ts, c0, c1, rp0, rp1, result);
    let row = choose|row: OverrideView|
        slow_path_won(pre, post, team, fp, excs, ts, c0, c1, rp0, rp1, result, row);
    lemma_override_idx_push(pre.overrides, team, fp, row);
    lemma_override_key_count_zero(pre.overrides, team, fp);
    lemma_override_key_count_push(pre.overrides, team, fp, row);
    assert(post.overrides[pre.overrides.len() as int] == row);
    lemma_issue_idx_props(pre.issues, row.issue_id);
    match issue_idx(pre.issues, row.issue_id) {
        None => {
            lemma_issue_idx_push(pre.issues, result, new_issue_view(result, team, excs));
        },
        Some(i) => {
            if pre.issues[i].team_id == team && pre.issues[i].status != IssueStatus::Active {
                lemma_issue_idx_update(pre.issues, i, activated(pre.issues[i]), result);
            }
        },
    }
}

/// Single-writer convergence: starting from a well-formed store with no
/// mapping for (team, fp), any number of consecutive resolve calls for that
/// same key return one and the same issue identity. Afterwards exactly one
/// override row carries the key and it records that identity, an issue row
/// with that identity exists, at most one issue row was added in total, and
/// the created signal fired exactly once when one was.
pub proof fn lemma_single_writer_convergence(
    stores: Seq<StoreView>,
    created: Seq<u64>,
    reopened: Seq<u64>,
    results: Seq<u128>,
    events: Seq<Seq<ExceptionView>>,
    stamps: Seq<i64>,
    team: int,
    fp: Seq<char>,
)
    requires
        results.len() >= 1,
        stores.len() == results.len() + 1,
        created.len() == results.len() + 1,
        reopened.len() == results.len() + 1,
        events.len() == results.len(),
        stamps.len() == results.len(),
        stores[0].wf(),
        override_idx(stores[0].overrides, team, fp) is None,
        forall|k: int|
            0 <= k < results.len() ==> #[trigger] resolve_trace_step(
                stores,
                created,
                reopened,
                results,
                events,
                stamps,
                team,
                fp,
                k,
            ),
    ensures
        forall|k: int| 0 <= k < results.len() ==> #[trigger] results[k] == results[0],
        (match found_override(stores.last().overrides, team, fp) {
            Some(o) => o.issue_id == results[0],
            None => false,
        }),
        override_key_count(stores.last().overrides, team, fp) == 1,
        issue_idx(stores.last().issues, results[0]) is Some,
        stores.last().issues.len() <= stores[0].issues.len() + 1,
        created.last() <= created[0] + 1,
        (created.last() == created[0] + 1) == (stores.last().issues.len() == stores[0].issues.len()
            + 1),
        stores.last().wf(),
    decreases results.len(),
{
    let n = results.len() as int;
    if n == 1 {
        assert(resolve_trace_step(stores, created, reopened, results, events, stamps, team, fp, 0));
        lemma_first_resolve(
            stores[0],
            stores[1],
            team,
            fp,
            events[0],
            stamps[0],
            created[0],
            created[1],
            reopened[0],
            reopened[1],
            results[0],
        );
        assert(stores.last() == stores[1]);
    } else {
        let m = n - 1;
        let pstores = stores.subrange(0, n);
        let pcreated = created.subrange(0, n);
        let preopened = reopened.subrange(0, n);
        let presults = results.subrange(0, m);
        let pevents = events.subrange(0, m);
        let pstamps = stamps.subrange(0, m);
        assert forall|k: int| 0 <= k < presults.len() implies #[trigger] resolve_trace_step(
            pstores,
            pcreated,
            preopened,
            presults,
            pevents,
            pstamps,
            team,
            fp,
            k,
        ) by {
            assert(resolve_trace_step(
                stores,
                created,
                reopened,
                results,
                events,
                stamps,
                team,
                fp,
                k,
            ));
        }
        lemma_single_writer_convergence(
            pstores,
            pcreated,
            preopened,
            presults,
            pevents,
            pstamps,
            team,
            fp,
        );
        assert(pstores.last() == stores[m]);
        assert(resolve_trace_step(stores, created, reopened, results, events, stamps, team, fp, m));
        lemma_loser_discard(
            stores[m],
            stores[n],
            team,
            fp,
            events[m],
            stamps[m],
            created[m],
            created[n],
            reopened[m],
            reopened[n],
            results[m],
        );
        assert(results[m] == presults[0]);
        assert forall|k: int| 0 <= k < results.len() implies #[trigger] results[k] == results[0] by {
            if k < m {
                assert(presults[k] == presults[0]);
            }
        }
        assert(stores.last() == stores[n]);
    }
}

/// Idempotent reopen: when the mapped issue is already active, resolving —
/// once or twice in a row — moves no reopened signal, changes nothing in
/// the store, and returns the mapped issue's identity both times.
pub proof fn lemma_idempotent_reopen(
    s0: StoreView,
    s1: StoreView,
    s2: StoreView,
    team: int,
    fp: Seq<char>,
    e1: Seq<ExceptionView>,
    e2: Seq<ExceptionView>,
    t1: i64,
    t2: i64,
    c0: u64,
    c1: u64,
    c2: u64,
    rp0: u64,
    rp1: u64,
    rp2: u64,
    id1: u128,
    id2: u128,
)
    requires
        s0.wf(),
        (match mapped_issue(s0, team, fp) {
            Some(m) => m.status == IssueStatus::Active,
            None => false,
        }),
        resolve_post(s0, s1, team, fp, e1, t1, c0, c1, rp0, rp1, id1),
        resolve_post(s1, s2, team, fp, e2, t2, c1, c2, rp1, rp2, id2),
    ensures
        rp1 == rp0,
        rp2 == rp1,
        id1 == mapped_issue(s0, team, fp).unwrap().id,
        id2 == id1,
        s1 == s0,
        s2 == s0,
{
    let o = found_override(s0.overrides, team, fp).unwrap();
    lemma_issue_idx_props(s0.issues, o.issue_id);
    assert(s1 == s0);
}

/// Fast-path reopen: with an existing mapping to a not-active issue, one
/// resolve call returns that issue's identity, flips exactly that row's
/// status back to active, fires exactly one reopened signal and no created
/// signal, and rewrites no mapping.
pub proof fn lemma_fast_path_reopen(
    s0: StoreView,
    s1: StoreView,
    team: int,
    fp: Seq<char>,
    excs: Seq<ExceptionView>,
    ts: i64,
    c0: u64,
    c1: u64,
    rp0: u64,
    rp1: u64,
    result: u128,
)
    requires
        s0.wf(),
        (match mapped_issue(s0, team, fp) {
            Some(m) => m.status != IssueStatus::Active,
            None => false,
        }),
        resolve_post(s0, s1, team, fp, excs, ts, c0, c1, rp0, rp1, result),
    ensures
        result == mapped_issue(s0, team, fp).unwrap().id,
        mapped_issue(s1, team, fp) == Some(activated(mapped_issue(s0, team, fp).unwrap())),
        rp1 == rp0 + 1,
        c1 == c0,
        s1.overrides == s0.overrides,
{
    let m = mapped_issue(s0, team, fp).unwrap();
    let o = found_override(s0.overrides, team, fp).unwrap();
    lemma_issue_idx_props(s0.issues, o.issue_id);
    let i = issue_idx(s0.issues, o.issue_id).unwrap();
    lemma_issue_idx_update(s0.issues, i, activated(s0.issues[i]), o.issue_id);
}

/// Slow-path creation fields: when no mapping exists and a new issue row is
/// actually created, that row carries the triggering event's first
/// exception entry — its name is the entry's type label and its description
/// the entry's message — it is active, scoped to the resolving team, and
/// its identity is the one the call returns.
pub proof fn lemma_slow_path_creation_fields(
    s0: StoreView,
    s1: StoreView,
    team: int,
    fp: Seq<char>,
    excs: Seq<ExceptionView>,
    ts: i64,
    c0: u64,
    c1: u64,
    rp0: u64,
    rp1: u64,
    result: u128,
)
    requires
        s0.wf(),
        override_idx(s0.overrides, team, fp) is None,
        excs.len() > 0,
        resolve_post(s0, s1, team, fp, excs, ts, c0, c1, rp0, rp1, result),
    ensures
        s1.issues.len() <= s0.issues.len() + 1,
        s1.issues.len() == s0.issues.len() + 1 ==> {
            &&& s1.issues == s0.issues.push(new_issue_view(result, team, excs))
            &&& s1.issues.last().id == result
            &&& s1.issues.last().team_id == team
            &&& s1.issues.last().status == IssueStatus::Active
            &&& s1.issues.last().name == Some(excs[0].exception_type)
            &&& s1.issues.last().description == Some(excs[0].exception_message)
        },
{
    let row = choose|row: OverrideView|
        slow_path_won(s0, s1, team, fp, excs, ts, c0, c1, rp0, rp1, result, row);
    lemma_issue_idx_props(s0.issues, row.issue_id);
    match issue_idx(s0.issues, row.issue_id) {
        None => {
            assert(s1.issues.last() == new_issue_view(result, team, excs));
        },
        Some(i) => {},
    }
}

} // verus!

//! The scheduling laws of the lock, proved from the transition relations.
//!
//! Each law is a public proof function whose hypotheses are transitions of
//! the core (the same relations that the executable operations ensure) and
//! whose conclusion is one guarantee of the primitive: exclusivity of the
//! live state, no waiting on the live name, FIFO order within a state,
//! first-waited-first-served across states, reuse of the cache, a single
//! tear-down per instance, and rejection of unregistered names without a
//! trace.

use vstd::prelude::*;

use crate::lock::{
    advance_transition, lock_transition, lock_wf, stash_transition, AdvanceStep, LockError,
    LockStep, LockView,
};
use crate::state::BoxView;
use crate::waiter::{
    table_enqueue, table_has_key, table_key_index, table_queue, table_wf, TableView,
};

verus! {

/// Exclusivity: a share of the live cell is handed out only for the one
/// current name.  Two acquisitions answered `Ready` in the same lock state
/// therefore name the same live instance.
pub proof fn lemma_exclusivity(
    pre: LockView,
    post1: LockView,
    post2: LockView,
    n1: Seq<char>,
    n2: Seq<char>,
    alive: bool,
    id1: u64,
    id2: u64,
    r1: Result<LockStep, LockError>,
    r2: Result<LockStep, LockError>,
)
    requires
        lock_transition(pre, post1, n1, alive, id1, r1),
        lock_transition(pre, post2, n2, alive, id2, r2),
        r1 matches Ok(s1) && s1 is Ready,
        r2 matches Ok(s2) && s2 is Ready,
    ensures
        n1 == n2,
        pre.current == Some(n1),
        post1 == pre,
        post2 == pre,
{
}

/// Never block on the own state: when the current cell is alive and named
/// `name`, acquiring `name` is answered `Ready` at once, without touching
/// the lock — the caller never parks.
pub proof fn lemma_never_block_on_own_state(
    pre: LockView,
    post: LockView,
    name: Seq<char>,
    fresh_id: u64,
    r: Result<LockStep, LockError>,
)
    requires
        lock_wf(pre),
        pre.current == Some(name),
        lock_transition(pre, post, name, true, fresh_id, r),
    ensures
        r matches Ok(step) && step is Ready,
        post == pre,
{
    assert(pre.names.contains(name));
}

/// Enqueuing appends: after parking a waiter on `name`, the queue of
/// `name` is the old queue with the new id at its end.
pub proof fn lemma_enqueue_appends(t: TableView, name: Seq<char>, id: u64)
    requires
        table_wf(t),
    ensures
        table_queue(table_enqueue(t, name, id), name) == table_queue(t, name).push(id),
{
    let t1 = table_enqueue(t, name, id);
    if table_has_key(t, name) {
        let at = table_key_index(t, name);
        assert(0 <= at < t.len() && t[at].0 == name);
        assert(table_has_key(t1, name)) by {
            assert(t1[at].0 == name);
        }
        let at1 = table_key_index(t1, name);
        assert(0 <= at1 < t1.len() && t1[at1].0 == name);
        if at1 != at {
            assert(t[at1].0 == name);
        }
        assert(table_queue(t1, name) == t[at].1.push(id));
    } else {
        let at = t.len() as int;
        assert(table_has_key(t1, name)) by {
            assert(t1[at].0 == name);
        }
        let at1 = table_key_index(t1, name);
        if at1 != at {
            assert(t[at1].0 == name);
        }
        assert(table_queue(t1, name) =~= table_queue(t, name).push(id));
    }
}

/// Enqueuing on one name leaves the queue of every other name unchanged.
pub proof fn lemma_enqueue_other_queue_unchanged(
    t: TableView,
    m: Seq<char>,
    id: u64,
    name: Seq<char>,
)
    requires
        table_wf(t),
        m != name,
    ensures
        table_queue(table_enqueue(t, m, id), name) == table_queue(t, name),
{
    let t1 = table_enqueue(t, m, id);
    if table_has_key(t, m) {
        let at = table_key_index(t, m);
        assert(0 <= at < t.len() && t[at].0 == m);
        assert forall|i: int| 0 <= i < t1.len() implies #[trigger] t1[i].0 == t[i].0 by {}
        if table_has_key(t, name) {
            let w = table_key_index(t, name);
            assert(0 <= w < t.len() && t[w].0 == name);
            assert(t1[w].0 == name);
            let w1 = table_key_index(t1, name);
            assert(0 <= w1 < t1.len() && t1[w1].0 == name);
            if w1 != w {
                assert(t[w1].0 == name);
            }
            assert(w != at);
            assert(table_queue(t1, name) == t[w].1);
        } else {
            if table_has_key(t1, name) {
                let w1 = table_key_index(t1, name);
                assert(t[w1].0 == name);
            }
        }
    } else {
        let at = t.len() as int;
        if table_has_key(t, name) {
            let w = table_key_index(t, name);
            assert(0 <= w < t.len() && t[w].0 == name);
            assert(t1[w].0 == name);
            let w1 = table_key_index(t1, name);
            assert(0 <= w1 < t1.len() && t1[w1].0 == name);
            if w1 != w {
                if w1 < at {
                    assert(t[w1].0 == name);
                } else {
                    assert(t1[w1].0 == m);
                }
            }
            assert(table_queue(t1, name) == t[w].1);
        } else {
            if table_has_key(t1, name) {
                let w1 = table_key_index(t1, name);
                assert(0 <= w1 < t1.len() && t1[w1].0 == name);
                if w1 < at {
                    assert(t[w1].0 == name);
                } else {
                    assert(t1[w1].0 == m);
                }
            }
        }
    }
}

/// FIFO within a state: two waiters parked on the same name, in order,
/// stand in its queue in that order — the queue is the old one with the
/// first id, then the second id appended — and every wake-up delivers that
/// queue as it is.
pub proof fn lemma_fifo_within_state(t: TableView, name: Seq<char>, id1: u64, id2: u64)
    requires
        table_wf(t),
        !crate::waiter::table_has_id(t, id1),
    ensures
        table_queue(table_enqueue(table_enqueue(t, name, id1), name, id2), name) == table_queue(
            t,
            name,
        ).push(id1).push(id2),
{
    crate::waiter::lemma_table_wf_enqueue(t, name, id1);
    lemma_enqueue_appends(t, name, id1);
    lemma_enqueue_appends(table_enqueue(t, name, id1), name, id2);
}

/// A name that gains its first waiter joins the key order at the end:
/// names that waited earlier stay in front of it.
pub proof fn lemma_first_waiter_joins_last(t: TableView, name: Seq<char>, id: u64)
    requires
        table_wf(t),
        !table_has_key(t, name),
    ensures
        table_enqueue(t, name, id).len() == t.len() + 1,
        table_enqueue(t, name, id)[t.len() as int].0 == name,
        forall|i: int| 0 <= i < t.len() ==> #[trigger] table_enqueue(t, name, id)[i] == t[i],
{
}

/// Cross-state fairness: when the lock advances, the state that received
/// its first waiter earliest — the front of the key order — becomes live,
/// and no other queued state does.
pub proof fn lemma_cross_state_fairness(pre: LockView, post: LockView, r: AdvanceStep)
    requires
        lock_wf(pre),
        pre.waiters.len() > 0,
        advance_transition(pre, post, false, r),
    ensures
        post.current == Some(pre.waiters[0].0),
        forall|i: int| 1 <= i < pre.waiters.len() ==> post.current != Some(pre.waiters[i].0),
{
    assert forall|i: int| 1 <= i < pre.waiters.len() implies post.current != Some(
        #[trigger] pre.waiters[i].0,
    ) by {
        assert(pre.waiters[0].0 != pre.waiters[i].0);
    }
}

/// A woken waiter is delivered exactly once: the ids woken by an advance
/// leave the table with the popped entry and are parked nowhere else.
pub proof fn lemma_advance_delivers_once(
    pre: LockView,
    post: LockView,
    r: AdvanceStep,
    id: u64,
)
    requires
        lock_wf(pre),
        pre.waiters.len() > 0,
        advance_transition(pre, post, false, r),
        pre.waiters[0].1.contains(id),
    ensures
        !crate::waiter::table_has_id(post.waiters, id),
        r matches AdvanceStep::Advanced { woken, .. } && woken@.contains(id),
{
    let p = choose|p: int| 0 <= p < pre.waiters[0].1.len() && pre.waiters[0].1[p] == id;
    if crate::waiter::table_has_id(post.waiters, id) {
        let (i, q) = choose|i: int, q: int|
            0 <= i < post.waiters.len() && 0 <= q < post.waiters[i].1.len()
                && post.waiters[i].1[q] == id;
        assert(post.waiters[i] == pre.waiters[i + 1]);
        assert(pre.waiters[i + 1].1[q] == pre.waiters[0].1[p]);
    }
}

/// A waiter queue consumed at creation is delivered exactly once: the ids
/// woken when a name becomes live leave the table with its entry and are
/// parked nowhere else.
pub proof fn lemma_creation_delivers_once(
    pre: LockView,
    post: LockView,
    name: Seq<char>,
    fresh_id: u64,
    r: Result<LockStep, LockError>,
    id: u64,
)
    requires
        lock_wf(pre),
        pre.names.contains(name),
        lock_transition(pre, post, name, false, fresh_id, r),
        table_queue(pre.waiters, name).contains(id),
    ensures
        !crate::waiter::table_has_id(post.waiters, id),
        r matches Ok(LockStep::Created { woken, .. }) && woken@.contains(id),
{
    let t = pre.waiters;
    assert(table_has_key(t, name)) by {
        if !table_has_key(t, name) {
            assert(table_queue(t, name).len() == 0);
        }
    }
    let at = table_key_index(t, name);
    assert(0 <= at < t.len() && t[at].0 == name);
    let p = choose|p: int| 0 <= p < t[at].1.len() && t[at].1[p] == id;
    if crate::waiter::table_has_id(post.waiters, id) {
        let (i, q) = choose|i: int, q: int|
            0 <= i < post.waiters.len() && 0 <= q < post.waiters[i].1.len()
                && post.waiters[i].1[q] == id;
        let i0 = if i < at { i } else { i + 1 };
        assert(post.waiters[i] == t[i0]);
        assert(t[i0].1[q] == t[at].1[p]);
    }
}

/// Reuse: acquire a name, let the only handle die, stash the torn-down
/// instance, advance with nobody waiting, and acquire the same name again —
/// the second acquisition adopts the cached instance, so tear-up runs at
/// most once across the two acquisitions and the instance is not rebuilt.
pub proof fn lemma_reuse(
    s0: LockView,
    s1: LockView,
    s2: LockView,
    s3: LockView,
    s4: LockView,
    name: Seq<char>,
    id1: u64,
    id2: u64,
    r1: Result<LockStep, LockError>,
    stashed: BoxView,
    replaced: Option<BoxView>,
    r_adv: AdvanceStep,
    r2: Result<LockStep, LockError>,
)
    requires
        lock_wf(s0),
        s0.waiters.len() == 0,
        s0.names.contains(name),
        lock_transition(s0, s1, name, false, id1, r1),
        r1 matches Ok(LockStep::Created { bx, .. }) ==> stashed == (BoxView {
            torn_down: true,
            ..bx@
        }),
        stash_transition(s1, s2, stashed, replaced),
        advance_transition(s2, s3, false, r_adv),
        lock_transition(s3, s4, name, false, id2, r2),
    ensures
        r_adv is Cleared,
        r2 matches Ok(LockStep::Created { adopted, .. }) && adopted,
{
    assert(s1.waiters.len() == 0) by {
        assert(crate::waiter::table_remove_key(s0.waiters, name) == s0.waiters);
    }
    assert(stashed.name == name);
    assert(s3.cached == Some(stashed));
    assert(s3.names == s0.names);
}

/// Tear-down runs at most once per instance: marking an already marked box
/// never asks the runtime to run the hook again.
pub proof fn lemma_tear_down_at_most_once(
    b0: BoxView,
    b1: BoxView,
    ran1: bool,
    b2: BoxView,
    ran2: bool,
)
    requires
        ran1 == !b0.torn_down,
        b1 == (BoxView { torn_down: true, ..b0 }),
        ran2 == !b1.torn_down,
        b2 == (BoxView { torn_down: true, ..b1 }),
    ensures
        !ran2,
        !(ran1 && ran2),
{
}

/// An instance adopted from the reuse cache has already run its tear-down,
/// so stashing it again runs no hook: together with
/// [`lemma_tear_down_at_most_once`] each instance tears down exactly once,
/// when it is first stashed.
pub proof fn lemma_adopted_box_already_torn_down(
    pre: LockView,
    name: Seq<char>,
    bx: BoxView,
    dropped_cache: Option<BoxView>,
)
    requires
        lock_wf(pre),
        crate::lock::tear_up_ok(pre, name, bx, true, dropped_cache),
    ensures
        bx.torn_down,
{
}

/// Error on a bad name: acquiring a name outside the family's catalog
/// fails with the unregistered-state error naming the state and family,
/// and mutates nothing.
pub proof fn lemma_unregistered_error(
    pre: LockView,
    post: LockView,
    name: Seq<char>,
    current_alive: bool,
    fresh_id: u64,
    r: Result<LockStep, LockError>,
)
    requires
        !pre.names.contains(name),
        lock_transition(pre, post, name, current_alive, fresh_id, r),
    ensures
        post == pre,
        r matches Err(e) && e matches LockError::UnregisteredState { state, family }
            && state@ == name && family@ == pre.family,
{
}

} // verus!

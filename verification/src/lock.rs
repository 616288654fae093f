//! The `StateLock` scheduler core.
//!
//! The lock's decisions are taken here, one event at a time, over plain
//! data: which state is current, who waits on which name, and what sits in
//! the one-slot reuse cache.  The runtime around the core holds the mutex,
//! the reference-counted cell of the live state and the parked tasks; it
//! reports to each call whether the current cell is still alive (its weak
//! reference upgraded) and carries out the returned step: sharing the live
//! cell, parking on a waiter, building the user value for a fresh box, or
//! delivering the woken waiter ids.
//!
//! Each operation's contract is a full transition relation on [`LockView`],
//! so that the scheduling laws — fairness across states, FIFO within one,
//! reuse of the cache, exactly-one tear-down — are proved from the
//! contracts alone.

use vstd::prelude::*;

use crate::order::str_eq;
use crate::registry::{contains_name, state_names, strictly_sorted, Catalog};
use crate::state::{BoxView, State, StateBox};
use crate::waiter::{
    table_enqueue, table_has_id, table_has_key, table_key_index, table_queue, table_remove_key,
    table_wf, TableView, WaiterTable,
};

verus! {

/// The mathematical content of a [`StateLock`].
pub struct LockView {
    /// The family this lock arbitrates.
    pub family: Seq<char>,
    /// The registered state names of the family, strictly sorted.
    pub names: Seq<Seq<char>>,
    /// The name of the current state; `None` when no state has been made
    /// live since the last advance that found no waiters.  The runtime's
    /// cell for this name may already be dead: each call learns from the
    /// runtime whether it is still alive.
    pub current: Option<Seq<char>>,
    /// The waiter table.
    pub waiters: TableView,
    /// The most recently stashed instance, kept for reuse.
    pub cached: Option<BoxView>,
}

/// The errors of the primitive.
#[derive(Debug)]
pub enum LockError {
    /// `acquire` was asked for a name that is not registered in the family.
    UnregisteredState {
        /// The requested state name.
        state: String,
        /// The family of the lock.
        family: String,
    },
    /// A typed view was requested of a handle that holds another state.
    /// Raised by the runtime's typed handles, never by the core.
    WrongCast {
        /// The name the caller expected.
        expected: String,
        /// The name the handle actually holds.
        actual: String,
    },
    /// The blocking primitive failed to deliver to a parked waiter.
    /// Raised by the runtime, never by the core.
    DeliveryFailure,
}

/// What the runtime must do after `lock_by_state_name`.
#[derive(Debug)]
pub enum LockStep {
    /// The requested state is the live one: share the current cell.
    Ready,
    /// Another state is live: park on the waiter whose fresh id was passed
    /// in; the woken waiter receives its handle from the advancing task.
    Wait,
    /// The requested state became live.  The runtime wraps `bx` in a fresh
    /// cell, builds the user value through its factory unless the box was
    /// `adopted` from the reuse cache, drops the value of any
    /// `dropped_cache` box, and delivers a share of the cell to each waiter
    /// in `woken`, in order.
    Created {
        /// The record of the now-live instance.
        bx: StateBox,
        /// Whether `bx` was adopted from the reuse cache (no tear-up runs).
        adopted: bool,
        /// The waiters parked on this name, to be delivered in this order.
        woken: Vec<u64>,
        /// A cached instance of another name that was discarded.
        dropped_cache: Option<StateBox>,
    },
}

/// What the runtime must do after `wakeup_next_group`.
#[derive(Debug)]
pub enum AdvanceStep {
    /// A live cell exists again — a concurrent acquire already advanced the
    /// lock; nothing to do.
    StillLive,
    /// No waiters: the lock is now empty.
    Cleared,
    /// Leadership moved to the first queued state.  The runtime handles
    /// `bx`, `adopted` and `dropped_cache` as after `Created`, and delivers
    /// a share of the new cell to each waiter in `woken`, in order.
    Advanced {
        /// The record of the now-live instance.
        bx: StateBox,
        /// The waiters of the popped front entry, in enqueue order.
        woken: Vec<u64>,
        /// Whether `bx` was adopted from the reuse cache (no tear-up runs).
        adopted: bool,
        /// A cached instance of another name that was discarded.
        dropped_cache: Option<StateBox>,
    },
}

/// The view of an optional box.
pub open spec fn opt_box_view(o: Option<StateBox>) -> Option<BoxView> {
    match o {
        Some(b) => Some(b@),
        None => None,
    }
}

/// Well-formedness of a lock, preserved by every operation:
/// the names are strictly sorted; the waiter table is well-formed and keyed
/// only by registered names; the current name, if any, is registered and has
/// no waiter queue; a cached instance has had tear-down run and belongs to
/// the lock's family.
pub open spec fn lock_wf(v: LockView) -> bool {
    &&& strictly_sorted(v.names)
    &&& table_wf(v.waiters)
    &&& forall|i: int| 0 <= i < v.waiters.len() ==> v.names.contains(#[trigger] v.waiters[i].0)
    &&& (v.current matches Some(n) ==> !table_has_key(v.waiters, n) && v.names.contains(n))
    &&& (v.cached matches Some(b) ==> b.torn_down && b.family == v.family)
}

/// Whether making `name` live would adopt the cached instance.
pub open spec fn adopts(pre: LockView, name: Seq<char>) -> bool {
    pre.cached matches Some(b) && b.name == name
}

/// What tear-up produces when `name` becomes live from `pre`: the cache is
/// adopted when its name matches (tear-up does not run), otherwise it is
/// discarded and a fresh, not-yet-torn-down box of the lock's family is
/// built.
pub open spec fn tear_up_ok(
    pre: LockView,
    name: Seq<char>,
    bx: BoxView,
    adopted: bool,
    dropped_cache: Option<BoxView>,
) -> bool {
    &&& adopted == adopts(pre, name)
    &&& bx.name == name
    &&& bx.family == pre.family
    &&& (adopted ==> Some(bx) == pre.cached)
    &&& (!adopted ==> !bx.torn_down)
    &&& dropped_cache == (if adopted {
        None
    } else {
        pre.cached
    })
}

/// The transition relation of `lock_by_state_name`: from the lock `pre` and
/// the event "`acquire(name)`, with the current cell alive or not and
/// `fresh_id` available for a waiter", to the lock `post` and the result
/// `r`.  An unregistered name fails without mutation; the live name is
/// shared without mutation; another live name parks the caller; and with no
/// live cell the name becomes current, consuming its pending waiter queue
/// and the reuse cache.
pub open spec fn lock_transition(
    pre: LockView,
    post: LockView,
    name: Seq<char>,
    current_alive: bool,
    fresh_id: u64,
    r: Result<LockStep, LockError>,
) -> bool {
    if !pre.names.contains(name) {
        &&& post == pre
        &&& r matches Err(e)
        &&& e matches LockError::UnregisteredState { state, family }
        &&& state@ == name
        &&& family@ == pre.family
    } else if current_alive {
        if pre.current == Some(name) {
            &&& post == pre
            &&& r matches Ok(step)
            &&& step is Ready
        } else {
            &&& post == (LockView { waiters: table_enqueue(pre.waiters, name, fresh_id), ..pre })
            &&& r matches Ok(step)
            &&& step is Wait
        }
    } else {
        &&& post == (LockView {
            current: Some(name),
            waiters: table_remove_key(pre.waiters, name),
            cached: None,
            ..pre
        })
        &&& r matches Ok(step)
        &&& step matches LockStep::Created { bx, adopted, woken, dropped_cache }
        &&& tear_up_ok(pre, name, bx@, adopted, opt_box_view(dropped_cache))
        &&& woken@ == table_queue(pre.waiters, name)
    }
}

/// The transition relation of `wakeup_next_group`: nothing happens while a
/// live cell exists; with no waiters the lock empties; otherwise the front
/// entry of the waiter table becomes the current state and its queue is
/// woken in order.
pub open spec fn advance_transition(
    pre: LockView,
    post: LockView,
    current_alive: bool,
    r: AdvanceStep,
) -> bool {
    if current_alive {
        &&& post == pre
        &&& r is StillLive
    } else if pre.waiters.len() == 0 {
        &&& post == (LockView { current: None, ..pre })
        &&& r is Cleared
    } else {
        &&& post == (LockView {
            current: Some(pre.waiters[0].0),
            waiters: pre.waiters.drop_first(),
            cached: None,
            ..pre
        })
        &&& r matches AdvanceStep::Advanced { bx, woken, adopted, dropped_cache }
        &&& tear_up_ok(pre, pre.waiters[0].0, bx@, adopted, opt_box_view(dropped_cache))
        &&& woken@ == pre.waiters[0].1
    }
}

/// The transition relation of `save_last_state`: the box takes the single
/// cache slot; the box it replaces, whose tear-down has already run, is
/// returned so that the runtime can drop its value.
pub open spec fn stash_transition(
    pre: LockView,
    post: LockView,
    bx: BoxView,
    replaced: Option<BoxView>,
) -> bool {
    &&& post == (LockView { cached: Some(bx), ..pre })
    &&& replaced == pre.cached
}

/// The state-exclusive lock core of one family.
pub struct StateLock {
    family: String,
    names: Vec<String>,
    current: Option<String>,
    waiters: WaiterTable,
    last_state: Option<StateBox>,
}

impl View for StateLock {
    type V = LockView;

    closed spec fn view(&self) -> LockView {
        LockView {
            family: self.family@,
            names: self.names.deep_view(),
            current: match self.current {
                Some(n) => Some(n@),
                None => None,
            },
            waiters: self.waiters@,
            cached: opt_box_view(self.last_state),
        }
    }
}

impl StateLock {
    /// A lock for `state_family`, drawing its names from the catalog.  A
    /// family without registrations yields an empty name set, on which every
    /// acquisition fails with an unregistered-state error.
    pub fn new(state_family: &str, catalog: &Catalog) -> (r: StateLock)
        requires
            catalog.wf(),
        ensures
            lock_wf(r@),
            r@.family == state_family@,
            r@.current is None,
            r@.waiters.len() == 0,
            r@.cached is None,
            forall|n: Seq<char>|
                #[trigger] r@.names.contains(n) <==> catalog.spec_contains(state_family@, n),
    {
        let names = state_names(catalog, state_family);
        StateLock {
            family: state_family.to_owned(),
            names,
            current: None,
            waiters: WaiterTable::new(),
            last_state: None,
        }
    }

    /// The family this lock arbitrates.
    pub fn state_family(&self) -> (r: &str)
        ensures
            r@ == self@.family,
    {
        self.family.as_str()
    }

    /// The registered state names, in strictly ascending lexicographic
    /// order.
    pub fn state_names(&self) -> (r: &Vec<String>)
        ensures
            r.deep_view() == self@.names,
    {
        &self.names
    }

    /// Whether a current state name is recorded.  The runtime's cell for it
    /// may nevertheless be dead already.
    pub fn has_current(&self) -> (r: bool)
        ensures
            r == (self@.current is Some),
    {
        self.current.is_some()
    }

    /// The name of the live state, given whether the runtime could still
    /// reach the live cell; `None` exactly when it could not.
    pub fn current_state(&self, current_alive: bool) -> (r: Option<String>)
        requires
            current_alive ==> self@.current is Some,
        ensures
            match r {
                Some(n) => current_alive && Some(n@) == self@.current,
                None => !current_alive,
            },
    {
        if current_alive {
            match &self.current {
                Some(n) => Some(n.clone()),
                None => {
                    proof {
                        assert(false);
                    }
                    None
                },
            }
        } else {
            None
        }
    }

    /// Whether a waiter with this id is parked in the table.
    pub fn contains_waiter(&self, id: u64) -> (r: bool)
        ensures
            r == table_has_id(self@.waiters, id),
    {
        self.waiters.contains_id(id)
    }

    /// Acquire a state by name: the central decision.  `current_alive`
    /// reports whether the runtime could still upgrade its reference to the
    /// current cell, and `fresh_id` is an unused waiter id for the case the
    /// caller must park.
    pub fn lock_by_state_name(&mut self, state_name: &str, current_alive: bool, fresh_id: u64)
        -> (r: Result<LockStep, LockError>)
        requires
            lock_wf(old(self)@),
            current_alive ==> old(self)@.current is Some,
            !table_has_id(old(self)@.waiters, fresh_id),
        ensures
            lock_wf(final (self)@),
            lock_transition(old(self)@, final (self)@, state_name@, current_alive, fresh_id, r),
    {
        if !contains_name(&self.names, state_name) {
            return Err(
                LockError::UnregisteredState {
                    state: state_name.to_owned(),
                    family: self.family.clone(),
                },
            );
        }
        if current_alive {
            let same = match &self.current {
                Some(n) => str_eq(n.as_str(), state_name),
                None => {
                    proof {
                        assert(false);
                    }
                    false
                },
            };
            if same {
                Ok(LockStep::Ready)
            } else {
                let ghost pre = self@;
                self.waiters.enqueue(state_name, fresh_id);
                proof {
                    lemma_wf_enqueue(pre, state_name@, fresh_id);
                }
                Ok(LockStep::Wait)
            }
        } else {
            let ghost pre = self@;
            let (bx, adopted, dropped_cache) = self.reuse_or_build(state_name);
            let woken = match self.waiters.take(state_name) {
                Some(ids) => ids,
                None => Vec::new(),
            };
            self.current = Some(state_name.to_owned());
            proof {
                lemma_wf_become_live(pre, self@, state_name@);
            }
            Ok(LockStep::Created { bx, adopted, woken, dropped_cache })
        }
    }

    /// Acquire the state of type `T`, by its registered name.  The name is
    /// whatever the user's implementation of `T::state_name` reports; the
    /// lock makes the one legal transition for that name.
    pub fn lock<T: State>(&mut self, current_alive: bool, fresh_id: u64) -> (r: Result<
        LockStep,
        LockError,
    >)
        requires
            lock_wf(old(self)@),
            current_alive ==> old(self)@.current is Some,
            !table_has_id(old(self)@.waiters, fresh_id),
        ensures
            lock_wf(final (self)@),
            exists|name: Seq<char>|
                lock_transition(old(self)@, final (self)@, name, current_alive, fresh_id, r),
    {
        let state_name = T::state_name();
        let r = self.lock_by_state_name(state_name, current_alive, fresh_id);
        proof {
            assert(lock_transition(old(self)@, self@, state_name@, current_alive, fresh_id, r));
        }
        r
    }

    /// Stash the instance whose cell just died into the reuse cache.  Its
    /// tear-down must already have run; the replaced cache box, if any, is
    /// handed back so that the runtime can drop its value.
    pub fn save_last_state(&mut self, bx: StateBox) -> (r: Option<StateBox>)
        requires
            lock_wf(old(self)@),
            bx@.torn_down,
            bx@.family == old(self)@.family,
        ensures
            lock_wf(final (self)@),
            stash_transition(old(self)@, final (self)@, bx@, opt_box_view(r)),
    {
        let replaced = self.last_state.take();
        self.last_state = Some(bx);
        replaced
    }

    /// Advance after a release: if the current cell is alive again, a
    /// concurrent acquire already took over; otherwise hand leadership to
    /// the first queued state, or empty the lock when nobody waits.
    pub fn wakeup_next_group(&mut self, current_alive: bool) -> (r: AdvanceStep)
        requires
            lock_wf(old(self)@),
            current_alive ==> old(self)@.current is Some,
        ensures
            lock_wf(final (self)@),
            advance_transition(old(self)@, final (self)@, current_alive, r),
    {
        if current_alive {
            return AdvanceStep::StillLive;
        }
        let ghost pre = self@;
        match self.waiters.take_front() {
            None => {
                self.current = None;
                AdvanceStep::Cleared
            },
            Some((name, woken)) => {
                let (bx, adopted, dropped_cache) = self.reuse_or_build(name.as_str());
                self.current = Some(name);
                proof {
                    lemma_wf_advance(pre, self@);
                }
                AdvanceStep::Advanced { bx, woken, adopted, dropped_cache }
            },
        }
    }

    /// Take the cache if its name matches, else discard it and build a
    /// fresh box of this family for `name`.
    fn reuse_or_build(&mut self, name: &str) -> (r: (StateBox, bool, Option<StateBox>))
        requires
            old(self)@.cached matches Some(b) ==> b.family == old(self)@.family,
        ensures
            final (self)@ == (LockView { cached: None, ..old(self)@ }),
            tear_up_ok(old(self)@, name@, r.0@, r.1, opt_box_view(r.2)),
    {
        match self.last_state.take() {
            Some(b) => {
                if str_eq(b.name(), name) {
                    (b, true, None)
                } else {
                    let bx = StateBox::new(name.to_owned(), self.family.clone());
                    (bx, false, Some(b))
                }
            },
            None => {
                let bx = StateBox::new(name.to_owned(), self.family.clone());
                (bx, false, None)
            },
        }
    }
}

/// Enqueuing a registered, non-current name keeps a lock well-formed.
proof fn lemma_wf_enqueue(pre: LockView, name: Seq<char>, fresh_id: u64)
    requires
        lock_wf(pre),
        pre.names.contains(name),
        pre.current matches Some(c) && c != name,
        !table_has_id(pre.waiters, fresh_id),
    ensures
        lock_wf(LockView { waiters: table_enqueue(pre.waiters, name, fresh_id), ..pre }),
{
    let t0 = pre.waiters;
    let t1 = table_enqueue(t0, name, fresh_id);
    crate::waiter::lemma_table_wf_enqueue(t0, name, fresh_id);
    if table_has_key(t0, name) {
        let at = table_key_index(t0, name);
        assert forall|i: int| 0 <= i < t1.len() implies pre.names.contains(
            #[trigger] t1[i].0,
        ) by {
            if i != at {
                assert(t1[i] == t0[i]);
            }
        }
        let c = pre.current->0;
        assert(!table_has_key(t1, c)) by {
            if table_has_key(t1, c) {
                let w = choose|w: int| 0 <= w < t1.len() && t1[w].0 == c;
                if w == at {
                    assert(t1[w].0 == name);
                } else {
                    assert(t0[w].0 == c);
                }
            }
        }
    } else {
        assert forall|i: int| 0 <= i < t1.len() implies pre.names.contains(
            #[trigger] t1[i].0,
        ) by {
            if i < t0.len() {
                assert(t1[i] == t0[i]);
            } else {
                assert(t1[i].0 == name);
            }
        }
        let c = pre.current->0;
        assert(!table_has_key(t1, c)) by {
            if table_has_key(t1, c) {
                let w = choose|w: int| 0 <= w < t1.len() && t1[w].0 == c;
                if w < t0.len() {
                    assert(t0[w].0 == c);
                } else {
                    assert(t1[w].0 == name);
                }
            }
        }
    }
}

/// Making a registered name live while consuming its waiter queue and the
/// cache keeps a lock well-formed.
proof fn lemma_wf_become_live(pre: LockView, post: LockView, name: Seq<char>)
    requires
        lock_wf(pre),
        pre.names.contains(name),
        post == (LockView {
            current: Some(name),
            waiters: table_remove_key(pre.waiters, name),
            cached: None,
            ..pre
        }),
    ensures
        lock_wf(post),
{
    let t0 = pre.waiters;
    let t1 = table_remove_key(t0, name);
    if table_has_key(t0, name) {
        let at = table_key_index(t0, name);
        crate::waiter::lemma_table_wf_remove(t0, at);
        assert forall|i: int| 0 <= i < t1.len() implies pre.names.contains(
            #[trigger] t1[i].0,
        ) by {
            if i < at {
                assert(t1[i] == t0[i]);
            } else {
                assert(t1[i] == t0[i + 1]);
            }
        }
        assert(!table_has_key(t1, name)) by {
            if table_has_key(t1, name) {
                let w = choose|w: int| 0 <= w < t1.len() && t1[w].0 == name;
                let w0 = if w < at {
                    w
                } else {
                    w + 1
                };
                assert(t0[w0].0 == name);
                assert(t0[at].0 == name);
            }
        }
    } else {
        assert(!table_has_key(t1, name));
    }
}

/// Popping the front waiter entry and making it live keeps a lock
/// well-formed.
proof fn lemma_wf_advance(pre: LockView, post: LockView)
    requires
        lock_wf(pre),
        pre.waiters.len() > 0,
        post == (LockView {
            current: Some(pre.waiters[0].0),
            waiters: pre.waiters.drop_first(),
            cached: None,
            ..pre
        }),
    ensures
        lock_wf(post),
{
    let t0 = pre.waiters;
    let t1 = t0.drop_first();
    let name = t0[0].0;
    assert(t1 =~= t0.remove(0));
    crate::waiter::lemma_table_wf_remove(t0, 0);
    assert(pre.names.contains(name));
    assert forall|i: int| 0 <= i < t1.len() implies pre.names.contains(#[trigger] t1[i].0) by {
        assert(t1[i] == t0[i + 1]);
    }
    assert(!table_has_key(t1, name)) by {
        if table_has_key(t1, name) {
            let w = choose|w: int| 0 <= w < t1.len() && t1[w].0 == name;
            assert(t0[w + 1].0 == name);
            assert(t0[0].0 == name);
        }
    }
}

} // verus!

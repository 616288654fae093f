//! Scenario tests that drive the lock core through the events a runtime
//! would report: acquisitions with the live cell alive or dead, tear-down
//! of a dying instance, stashing it, and advancing to the next state.

use state_lock::{
    AdvanceStep, Catalog, LockError, LockStep, State, StateBox, StateLock, StateRegistration,
};

fn reg(family: &str, state: &str) -> StateRegistration {
    StateRegistration { state_family: family.to_owned(), state: state.to_owned() }
}

fn family_f() -> Catalog {
    Catalog::new(vec![reg("F", "A"), reg("F", "B"), reg("F", "C")])
}

fn created(step: LockStep) -> (StateBox, bool, Vec<u64>, Option<StateBox>) {
    match step {
        LockStep::Created { bx, adopted, woken, dropped_cache } => {
            (bx, adopted, woken, dropped_cache)
        }
        other => panic!("expected a creation, got {:?}", other),
    }
}

fn advanced(step: AdvanceStep) -> (StateBox, Vec<u64>, bool, Option<StateBox>) {
    match step {
        AdvanceStep::Advanced { bx, woken, adopted, dropped_cache } => {
            (bx, woken, adopted, dropped_cache)
        }
        other => panic!("expected an advance, got {:?}", other),
    }
}

#[test]
fn single_acquire_release() {
    let catalog = family_f();
    let mut sl = StateLock::new("F", &catalog);
    assert_eq!(sl.state_family(), "F");
    assert_eq!(sl.state_names().len(), 3);
    assert!(sl.current_state(false).is_none());

    let (mut bx, adopted, woken, dropped) = created(sl.lock_by_state_name("A", false, 1).unwrap());
    assert!(!adopted); // tear-up runs: +A
    assert!(woken.is_empty());
    assert!(dropped.is_none());
    assert_eq!(bx.name(), "A");
    assert_eq!(bx.family(), "F");
    assert_eq!(sl.current_state(true).unwrap(), "A");

    // The only handle dies.
    assert!(bx.tear_down()); // -A runs
    assert!(sl.save_last_state(bx).is_none());
    assert!(matches!(sl.wakeup_next_group(false), AdvanceStep::Cleared));
    assert!(!sl.has_current());
    assert!(sl.current_state(false).is_none());
}

#[test]
fn shared_live_state() {
    let catalog = family_f();
    let mut sl = StateLock::new("F", &catalog);

    // Five tasks ask for A; the first creates it, the others share it:
    // tear-up runs exactly once.
    let (bx, adopted, _, _) = created(sl.lock_by_state_name("A", false, 1).unwrap());
    assert!(!adopted);
    for id in 2..6 {
        assert!(matches!(sl.lock_by_state_name("A", true, id), Ok(LockStep::Ready)));
    }
    // Never block on the own state: the current name is acquired without
    // suspending.
    let current = sl.current_state(true).unwrap();
    assert!(matches!(
        sl.lock_by_state_name(current.as_str(), true, 6),
        Ok(LockStep::Ready)
    ));
    drop(bx);
}

#[test]
fn cross_state_queue_fairness() {
    let catalog = family_f();
    let mut sl = StateLock::new("F", &catalog);

    // T0 holds A.
    let (mut bx_a, _, _, _) = created(sl.lock_by_state_name("A", false, 0).unwrap());
    // T1 wants B, T2 wants C, T3 wants B — in that order.
    assert!(matches!(sl.lock_by_state_name("B", true, 1), Ok(LockStep::Wait)));
    assert!(matches!(sl.lock_by_state_name("C", true, 2), Ok(LockStep::Wait)));
    assert!(matches!(sl.lock_by_state_name("B", true, 3), Ok(LockStep::Wait)));

    // T0 releases: B received its first waiter before C, so B goes live,
    // and its two waiters are woken in enqueue order.
    assert!(bx_a.tear_down());
    assert!(sl.save_last_state(bx_a).is_none());
    let (mut bx_b, woken, adopted, dropped) = advanced(sl.wakeup_next_group(false));
    assert_eq!(bx_b.name(), "B");
    assert!(!adopted);
    assert_eq!(woken, vec![1, 3]);
    let dropped = dropped.expect("the cached A is discarded for B");
    assert_eq!(dropped.name(), "A");
    assert!(dropped.is_torn_down());
    assert_eq!(sl.current_state(true).unwrap(), "B");

    // Both B holders release; C follows.
    assert!(bx_b.tear_down());
    assert!(sl.save_last_state(bx_b).is_none());
    let (mut bx_c, woken, adopted, dropped) = advanced(sl.wakeup_next_group(false));
    assert_eq!(bx_c.name(), "C");
    assert!(!adopted);
    assert_eq!(woken, vec![2]);
    assert_eq!(dropped.expect("cached B discarded").name(), "B");

    // C releases; the lock empties.
    assert!(bx_c.tear_down());
    assert!(sl.save_last_state(bx_c).is_none());
    assert!(matches!(sl.wakeup_next_group(false), AdvanceStep::Cleared));
    assert!(!sl.has_current());
}

#[test]
fn reuse_of_the_cached_state() {
    let catalog = family_f();
    let mut sl = StateLock::new("F", &catalog);

    // First cycle: acquire A, release it.
    let (mut bx, adopted, _, _) = created(sl.lock_by_state_name("A", false, 1).unwrap());
    assert!(!adopted); // +A, the only tear-up
    let ran_first = bx.tear_down();
    assert!(ran_first); // -A, the only tear-down
    assert!(sl.save_last_state(bx).is_none());
    assert!(matches!(sl.wakeup_next_group(false), AdvanceStep::Cleared));

    // Second cycle, no other acquirer in between: the cached A is adopted,
    // tear-up does not run again.
    let (mut bx, adopted, woken, dropped) = created(sl.lock_by_state_name("A", false, 2).unwrap());
    assert!(adopted);
    assert!(woken.is_empty());
    assert!(dropped.is_none());
    assert_eq!(bx.name(), "A");

    // Release again: the instance was already torn down, the hook must not
    // run a second time.
    let ran_second = bx.tear_down();
    assert!(!ran_second);
    assert!(sl.save_last_state(bx).is_none());
    assert!(matches!(sl.wakeup_next_group(false), AdvanceStep::Cleared));
}

#[test]
fn unknown_state_is_rejected() {
    let catalog = family_f();
    let mut sl = StateLock::new("F", &catalog);

    match sl.lock_by_state_name("Q", false, 1) {
        Err(LockError::UnregisteredState { state, family }) => {
            assert_eq!(state, "Q");
            assert_eq!(family, "F");
        }
        other => panic!("expected the unregistered-state error, got {:?}", other),
    }
    // Nothing was mutated: no current state, no tear-up, and the lock still
    // works.
    assert!(!sl.has_current());
    assert!(sl.current_state(false).is_none());
    let (bx, _, _, _) = created(sl.lock_by_state_name("A", false, 2).unwrap());
    assert_eq!(bx.name(), "A");
}

#[test]
fn reentrant_acquire_during_tear_down() {
    let catalog = family_f();
    let mut sl = StateLock::new("F", &catalog);

    // A is live; its last handle dies.
    let (mut bx_a, _, _, _) = created(sl.lock_by_state_name("A", false, 1).unwrap());
    assert!(bx_a.tear_down());

    // While A's tear-down hook runs (outside the runtime's mutex), it
    // re-enters and acquires B; the current cell is dead, so B goes live at
    // once — no deadlock, no lost waiter.
    let (bx_b, adopted, _, _) = created(sl.lock_by_state_name("B", false, 2).unwrap());
    assert!(!adopted);
    assert_eq!(bx_b.name(), "B");

    // The dying cell's drop continues: stash A, then advance — which finds
    // the new live cell and does nothing.
    assert!(sl.save_last_state(bx_a).is_none());
    assert!(matches!(sl.wakeup_next_group(true), AdvanceStep::StillLive));
    assert_eq!(sl.current_state(true).unwrap(), "B");
    drop(bx_b);
}

#[test]
fn pending_waiters_are_dispatched_at_creation() {
    let catalog = family_f();
    let mut sl = StateLock::new("F", &catalog);

    // A is live and a B waiter parks.  A's last handle dies; in the window
    // between its tear-down and its advance, another task acquires B with
    // the cell dead: B becomes live at once and the pending B waiter is
    // dispatched with the same instance.
    let (mut bx_a, _, _, _) = created(sl.lock_by_state_name("A", false, 0).unwrap());
    assert!(matches!(sl.lock_by_state_name("B", true, 1), Ok(LockStep::Wait)));
    assert!(bx_a.tear_down());
    let (bx_b, adopted, woken, dropped) = created(sl.lock_by_state_name("B", false, 2).unwrap());
    assert!(!adopted);
    assert_eq!(woken, vec![1]);
    assert!(dropped.is_none()); // the dying A is not even stashed yet

    // The dying cell finishes: stash A, advance — a live cell exists, so
    // nothing further happens and B stays current.
    assert!(sl.save_last_state(bx_a).is_none());
    assert!(matches!(sl.wakeup_next_group(true), AdvanceStep::StillLive));
    assert_eq!(sl.current_state(true).unwrap(), "B");
    drop(bx_b);
}

struct TypedA;

impl State for TypedA {
    fn state_name() -> &'static str {
        "A"
    }
    fn name(&self) -> &'static str {
        Self::state_name()
    }
    fn family(&self) -> &'static str {
        "F"
    }
    fn tear_up() -> Self {
        TypedA
    }
    fn tear_down(&mut self) {}
}

#[test]
fn typed_lock_uses_the_registered_name() {
    let catalog = family_f();
    let mut sl = StateLock::new("F", &catalog);
    let (bx, adopted, _, _) = created(sl.lock::<TypedA>(false, 1).unwrap());
    assert!(!adopted);
    assert_eq!(bx.name(), "A");
    assert_eq!(TypedA::state_name(), "A");
    let value = TypedA::tear_up();
    assert_eq!(value.name(), "A");
    assert_eq!(value.family(), "F");
}

#[test]
fn state_box_tears_down_exactly_once() {
    let mut bx = StateBox::new("A".to_owned(), "F".to_owned());
    assert_eq!(bx.name(), "A");
    assert_eq!(bx.family(), "F");
    assert!(!bx.is_torn_down());
    assert!(bx.tear_down());
    assert!(bx.is_torn_down());
    assert!(!bx.tear_down());
    assert!(bx.is_torn_down());
}

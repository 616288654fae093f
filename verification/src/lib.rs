//! A state-exclusive synchronization core.
//!
//! A `StateLock` arbitrates tasks that contend for named *states* drawn from a
//! fixed catalog: at any instant at most one state of the family is live, the
//! live state is shared by every holder, and tasks asking for another state
//! wait in per-state queues that are served fairly.  This crate holds the
//! decision core of that primitive: the catalog, the per-state waiter table,
//! the one-slot reuse cache, and the transition rules of `acquire` and
//! `advance`, all as plain verified data.  Blocking, reference counting and
//! the user-supplied state values live in the runtime around the core, which
//! drives it one event at a time.

pub mod default;

mod order;
pub use order::{lex_lt, str_eq, str_lt};

mod state;
pub use state::{BoxView, State, StateBox};

mod registry;
pub use registry::{
    spec_registered, state_names, strictly_sorted, tear_up_registered_state, Catalog,
    StateRegistration,
};

mod waiter;
pub use waiter::{
    table_enqueue, table_has_id, table_has_key, table_key_index, table_queue, table_remove_key,
    table_wf, TableView, WaiterTable,
};

mod lock;
pub use lock::{
    adopts, advance_transition, lock_transition, lock_wf, opt_box_view, stash_transition,
    tear_up_ok, AdvanceStep, LockError, LockStep, LockView, StateLock,
};

mod laws;
pub use laws::{
    lemma_adopted_box_already_torn_down, lemma_advance_delivers_once, lemma_creation_delivers_once,
    lemma_cross_state_fairness, lemma_enqueue_appends,
    lemma_enqueue_other_queue_unchanged, lemma_exclusivity, lemma_fifo_within_state,
    lemma_first_waiter_joins_last, lemma_never_block_on_own_state, lemma_reuse,
    lemma_tear_down_at_most_once, lemma_unregistered_error,
};

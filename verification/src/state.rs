use vstd::prelude::*;

verus! {

/// A value that can serve as a state of a family.
///
/// Any type implementing `State` can be driven by a `StateLock` runtime: it is
/// created by `tear_up` when its name becomes live and notified by
/// `tear_down` just before the instance is discarded.  The trait is an
/// extension point for users of the library; the verified core itself works
/// on state names and never needs to see the value.
pub trait State: Sync {
    /// The unique state name within the family, decided by the type.
    fn state_name() -> &'static str where Self: Sized;

    /// The state name of this value; the same as `Self::state_name()`.
    fn name(&self) -> &'static str;

    /// The family the state belongs to.
    fn family(&self) -> &'static str;

    /// Build the state value; runs when the state becomes live.
    fn tear_up() -> Self where Self: Sized;

    /// Hook that runs once, just before the value is discarded.
    fn tear_down(&mut self);
}

/// The mathematical content of a [`StateBox`]: its name, its family, and
/// whether tear-down has already run for the instance.
pub struct BoxView {
    /// The state name of the instance.
    pub name: Seq<char>,
    /// The family of the instance.
    pub family: Seq<char>,
    /// Whether tear-down has already run.
    pub torn_down: bool,
}

/// The core's record of one state instance.
///
/// A `StateBox` is created at tear-up, becomes the live instance, is stashed
/// in the one-slot reuse cache when the last handle goes away, and is either
/// adopted again by a matching `acquire` or discarded.  The box remembers
/// whether its tear-down already happened, so that the hook runs exactly once
/// per instance however often the box moves between the live slot and the
/// cache.
#[derive(Debug)]
pub struct StateBox {
    name: String,
    family: String,
    torn_down: bool,
}

impl View for StateBox {
    type V = BoxView;

    closed spec fn view(&self) -> BoxView {
        BoxView { name: self.name@, family: self.family@, torn_down: self.torn_down }
    }
}

impl StateBox {
    /// A fresh instance record: tear-down has not run yet.
    pub fn new(name: String, family: String) -> (r: StateBox)
        ensures
            r@ == (BoxView { name: name@, family: family@, torn_down: false }),
    {
        StateBox { name, family, torn_down: false }
    }

    /// The state name.
    pub fn name(&self) -> (r: &str)
        ensures
            r@ == self@.name,
    {
        self.name.as_str()
    }

    /// The family name.
    pub fn family(&self) -> (r: &str)
        ensures
            r@ == self@.family,
    {
        self.family.as_str()
    }

    /// Whether tear-down has already run.
    pub fn is_torn_down(&self) -> (r: bool)
        ensures
            r == self@.torn_down,
    {
        self.torn_down
    }

    /// Record that this instance is being torn down now.
    ///
    /// Returns true exactly when the tear-down hook still has to run: once it
    /// has returned true for an instance, every later call returns false, so
    /// a runtime that runs the hook precisely when this returns true runs it
    /// exactly once per instance.
    pub fn tear_down(&mut self) -> (run_hook: bool)
        ensures
            run_hook == !old(self)@.torn_down,
            final (self)@ == (BoxView { torn_down: true, ..old(self)@ }),
    {
        let first = !self.torn_down;
        self.torn_down = true;
        first
    }
}

} // verus!

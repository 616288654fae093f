//! Distinguishing states that can be built by `Default` from states that
//! need a user-supplied factory, without specialization.

use vstd::prelude::*;

verus! {

/// Fallback implemented for every `HasDefault<T>`.
///
/// The associated constant reports whether the wrapped type offers a default
/// tear-up; this blanket level answers `false`, and the inherent level on
/// `HasDefault<T>` for `T: Default` shadows it with `true`.
pub trait NoDefaultImplement: Sized {
    /// The wrapped state type.
    type Ty;

    /// Whether `Ty` can be torn up by `Default`.
    const HAS_DEFAULT: bool = false;
}

/// Probe for a default tear-up of `T`.
///
/// `HasDefault::<T>::HAS_DEFAULT` resolves to the inherent `true` when `T`
/// implements `Default` and to the trait-level `false` otherwise, and
/// `HasDefault::<T>::tear_up()` builds the default value when it exists.
pub struct HasDefault<T>(core::marker::PhantomData<T>);

impl<T> NoDefaultImplement for HasDefault<T> {
    type Ty = T;
}

impl<T: Default> HasDefault<T> {
    /// `T` implements `Default`, so a default tear-up exists.
    pub const HAS_DEFAULT: bool = true;

    /// Build the default value of `T`.
    pub fn tear_up() -> T {
        T::default()
    }
}

} // verus!

use vstd::prelude::*;

verus! {

/// Declares std's `core::marker::PhantomPinned`, the marker that keeps a
/// [`Named`] from moving once it has been pinned; nothing of its value is
/// read.
#[verifier::external_type_specification]
#[verifier::external_body]
pub struct PinnedMarker(core::marker::PhantomPinned);

/// Makes the marker that keeps a [`Named`] in place: calls
/// `Default::default` of `core::marker::PhantomPinned`, a unit value that
/// carries no data, so nothing is claimed of the result.
#[verifier::external_body]
fn pinned_marker() -> core::marker::PhantomPinned {
    Default::default()
}

/// Wrapper type for named futures.
///
/// The type of a named future is `Named<..>` of a type that the expansion
/// of `#[name_it]` defines next to the function.
pub struct Named<T> {
    inner: T,
    _pinned: core::marker::PhantomPinned,
}

impl<T> Named<T> {
    /// The value that this wrapper holds.
    pub closed spec fn inner(&self) -> T {
        self.inner
    }

    /// Wraps `inner`.
    pub fn new(inner: T) -> (named: Self)
        ensures
            named.inner() == inner,
    {
        Named { inner, _pinned: pinned_marker() }
    }

    /// The value that this wrapper holds, taken out of it.
    pub fn into_inner(self) -> (inner: T)
        ensures
            inner == self.inner(),
    {
        self.inner
    }
}

} // verus!

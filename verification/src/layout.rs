use vstd::prelude::*;

verus! {

/// The parameters of a function that returns a future: the future's type and
/// what it resolves to.
///
/// An implementation says that `Fut` is exactly the type of the future that
/// the function (the implementing value) returns; the storage of a named
/// future is sized and aligned by it, and the code that polls and drops that
/// storage reads it as a `Fut`, so a wrong `Fut` breaks memory safety there.
/// (The trait cannot be marked `unsafe` here; implement it only for function
/// types, as the runtime does.)
pub trait FutParams {
    /// The future that the function returns.
    type Fut: core::future::Future<Output = Self::Output>;

    /// What the future resolves to.
    type Output;
}

/// Size in bytes of the future that `_f` returns.
pub fn size_of_fut<F: FutParams>(_f: &F) -> (n: usize)
    ensures
        n as nat == vstd::layout::size_of::<F::Fut>(),
        n as nat % align_of_spec::<F>() == 0,
{
    vstd::layout::layout_for_type_is_valid::<F::Fut>();
    core::mem::size_of::<F::Fut>()
}

/// The alignment, in bytes, of the future type of `F`.
pub open spec fn align_of_spec<F: FutParams>() -> nat {
    vstd::layout::align_of::<F::Fut>()
}

/// Alignment in bytes of the future that `_f` returns.
pub fn align_of_fut<F: FutParams>(_f: &F) -> (a: usize)
    ensures
        a as nat == vstd::layout::align_of::<F::Fut>(),
        a != 0,
        vstd::arithmetic::power2::is_pow2(a as int),
{
    vstd::layout::layout_for_type_is_valid::<F::Fut>();
    core::mem::align_of::<F::Fut>()
}

} // verus!

//! Access to the representation that a string type is built on.
use vstd::prelude::*;

pub mod bytestring;

verus! {

/// A type that lends out its inner representation.
pub trait AsInner<Inner: ?Sized> {
    fn as_inner(&self) -> &Inner;
}

/// A type that can be taken apart into its inner representation.
pub trait IntoInner<Inner>: Sized {
    fn into_inner(self) -> Inner;
}

/// A type that can be built from its inner representation.
pub trait FromInner<Inner>: Sized {
    fn from_inner(inner: Inner) -> Self;
}

} // verus!

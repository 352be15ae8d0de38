//! The calls into the standard library's buffer and smart-pointer functions
//! whose behaviour is not proved here. Each contract is taken on trust from
//! the standard library's documentation.
use std::rc::Rc;
use std::sync::Arc;
use vstd::prelude::*;
use crate::inner::inner_alloc::capacity_of;

verus! {

/// `Vec::with_capacity`: an empty buffer that can hold at least `capacity`
/// bytes without reallocating; asked for none, it allocates nothing.
#[verifier::external_body]
pub(crate) fn vec_with_capacity(capacity: usize) -> (v: Vec<u8>)
    requires
        capacity <= isize::MAX,
    ensures
        v@ == Seq::<u8>::empty(),
        capacity_of(v) >= capacity,
        capacity == 0 ==> capacity_of(v) == 0,
{
    Vec::with_capacity(capacity)
}

/// `Vec::capacity`: how many bytes the buffer can hold without reallocating,
/// never fewer than it holds.
#[verifier::external_body]
pub(crate) fn vec_capacity(v: &Vec<u8>) -> (c: usize)
    ensures
        c == capacity_of(*v),
        c >= v@.len(),
{
    v.capacity()
}

/// `Vec::reserve`: the contents stay as they are. Afterwards there is room
/// for `additional` more bytes; where there was already, nothing is done, so
/// the capacity never falls.
#[verifier::external_body]
pub(crate) fn vec_reserve(v: &mut Vec<u8>, additional: usize)
    requires
        old(v)@.len() + additional <= isize::MAX,
    ensures
        final(v)@ == old(v)@,
        capacity_of(*final(v)) >= old(v)@.len() + additional,
        capacity_of(*final(v)) >= capacity_of(*old(v)),
        capacity_of(*old(v)) >= old(v)@.len() + additional ==> capacity_of(*final(v))
            == capacity_of(*old(v)),
{
    v.reserve(additional)
}

/// `Vec::reserve_exact`: the contents stay as they are. Afterwards there is
/// room for `additional` more bytes; where there was already, nothing is
/// done, so the capacity never falls. The allocator may give more than was
/// asked for.
#[verifier::external_body]
pub(crate) fn vec_reserve_exact(v: &mut Vec<u8>, additional: usize)
    requires
        old(v)@.len() + additional <= isize::MAX,
    ensures
        final(v)@ == old(v)@,
        capacity_of(*final(v)) >= old(v)@.len() + additional,
        capacity_of(*final(v)) >= capacity_of(*old(v)),
        capacity_of(*old(v)) >= old(v)@.len() + additional ==> capacity_of(*final(v))
            == capacity_of(*old(v)),
{
    v.reserve_exact(additional)
}

/// `Vec::clear`: the buffer is emptied and keeps its capacity.
#[verifier::external_body]
pub(crate) fn vec_clear(v: &mut Vec<u8>)
    ensures
        final(v)@ == Seq::<u8>::empty(),
        capacity_of(*final(v)) == capacity_of(*old(v)),
{
    v.clear()
}

/// `Vec::extend_from_slice`: the bytes are added at the end. The capacity
/// never falls, holds what the buffer then holds, and stays as it is where
/// the bytes fit.
#[verifier::external_body]
pub(crate) fn vec_extend_from_slice(v: &mut Vec<u8>, other: &[u8])
    ensures
        final(v)@ == old(v)@ + other@,
        capacity_of(*final(v)) >= capacity_of(*old(v)),
        capacity_of(*final(v)) >= final(v)@.len(),
        old(v)@.len() + other@.len() <= capacity_of(*old(v)) ==> capacity_of(*final(v))
            == capacity_of(*old(v)),
{
    v.extend_from_slice(other)
}

/// `Vec::shrink_to_fit`: the contents stay as they are. The capacity comes
/// down as far as the allocator lets it: never below the length, never above
/// what it was.
#[verifier::external_body]
pub(crate) fn vec_shrink_to_fit(v: &mut Vec<u8>)
    ensures
        final(v)@ == old(v)@,
        capacity_of(*final(v)) >= final(v)@.len(),
        capacity_of(*final(v)) <= capacity_of(*old(v)),
{
    v.shrink_to_fit()
}

/// `Vec::into_boxed_slice`: the same bytes, in a box.
#[verifier::external_body]
pub(crate) fn vec_into_boxed_slice(v: Vec<u8>) -> (b: Box<[u8]>)
    ensures
        b@ == v@,
{
    v.into_boxed_slice()
}

/// `Rc::<[u8]>::from` of a slice: a counted allocation with a copy of the
/// bytes.
#[verifier::external_body]
pub(crate) fn rc_from_slice(s: &[u8]) -> (r: Rc<[u8]>)
    ensures
        (*r)@ == s@,
{
    Rc::from(s)
}

/// `Arc::<[u8]>::from` of a slice: an atomically counted allocation with a
/// copy of the bytes.
#[verifier::external_body]
pub(crate) fn arc_from_slice(s: &[u8]) -> (r: Arc<[u8]>)
    ensures
        (*r)@ == s@,
{
    Arc::from(s)
}

/// `Rc::clone`: another handle on the same bytes.
#[verifier::external_body]
pub(crate) fn rc_clone(r: &Rc<[u8]>) -> (c: Rc<[u8]>)
    ensures
        (*c)@ == (*r)@,
{
    Rc::clone(r)
}

/// `Arc::clone`: another handle on the same bytes.
#[verifier::external_body]
pub(crate) fn arc_clone(r: &Arc<[u8]>) -> (c: Arc<[u8]>)
    ensures
        (*c)@ == (*r)@,
{
    Arc::clone(r)
}

} // verus!

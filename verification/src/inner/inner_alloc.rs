//! The owned form of a platform string on Unix-like targets: a growable
//! buffer of bytes.
use std::cmp::Ordering;
use std::rc::Rc;
use std::sync::Arc;
use vstd::prelude::*;
use vstd::std_specs::cmp::{PartialEqSpecImpl, PartialOrdSpecImpl};
use vstd::utf8::*;
use crate::alloc_calls::{
    vec_capacity, vec_clear, vec_extend_from_slice, vec_into_boxed_slice, vec_reserve,
    vec_reserve_exact, vec_shrink_to_fit, vec_with_capacity,
};
use crate::inner::{bytes_eq, bytes_order, Slice};
use crate::sys_common::{AsInner, IntoInner};
use crate::text::{string_from_utf8, string_into_bytes};

verus! {

/// How many bytes the buffer of `v` can hold without reallocating: what
/// `Vec::capacity` returns for this vector. It belongs to the vector, not to
/// its contents: two vectors with the same bytes may differ in it.
pub uninterp spec fn capacity_of(v: Vec<u8>) -> usize;

/// A growable, exclusively owned buffer of bytes.
#[derive(Eq, Ord, Hash)]
pub struct Buf {
    pub inner: Vec<u8>,
}

impl View for Buf {
    type V = Seq<u8>;

    open spec fn view(&self) -> Seq<u8> {
        self.inner@
    }
}

impl PartialEq for Buf {
    /// Equality of the bytes.
    fn eq(&self, other: &Buf) -> (r: bool) {
        bytes_eq(self.inner.as_slice(), other.inner.as_slice())
    }
}

impl PartialEqSpecImpl for Buf {
    open spec fn obeys_eq_spec() -> bool {
        true
    }

    open spec fn eq_spec(&self, other: &Buf) -> bool {
        self@ == other@
    }
}

impl PartialOrd for Buf {
    /// The order of byte strings.
    fn partial_cmp(&self, other: &Buf) -> (r: Option<Ordering>) {
        self.as_slice().partial_cmp(&other.as_slice())
    }
}

impl PartialOrdSpecImpl for Buf {
    open spec fn obeys_partial_cmp_spec() -> bool {
        true
    }

    open spec fn partial_cmp_spec(&self, other: &Buf) -> Option<Ordering> {
        Some(bytes_order(self@, other@))
    }
}

impl Clone for Buf {
    /// A buffer of its own with the same bytes.
    fn clone(&self) -> (r: Buf)
        ensures
            r@ == self@,
    {
        let r = Buf { inner: self.inner.clone() };
        assert(r@ =~= self@);
        r
    }
}

impl IntoInner<Vec<u8>> for Buf {
    fn into_inner(self) -> (r: Vec<u8>)
        ensures
            r@ == self@,
    {
        self.inner
    }
}

impl AsInner<[u8]> for Buf {
    fn as_inner(&self) -> (r: &[u8])
        ensures
            r@ == self@,
    {
        self.inner.as_slice()
    }
}

impl Buf {
    /// The capacity of the buffer.
    pub open spec fn spec_capacity(&self) -> usize {
        capacity_of(self.inner)
    }

    /// The bytes of a text, taken over without a copy.
    pub fn from_string(s: String) -> (r: Buf)
        ensures
            r@ == encode_utf8(s@),
    {
        Buf { inner: string_into_bytes(s) }
    }

    /// An empty buffer with room for at least `capacity` bytes. Asked for
    /// none, it allocates nothing.
    pub fn with_capacity(capacity: usize) -> (r: Buf)
        requires
            capacity <= isize::MAX,
        ensures
            r@ == Seq::<u8>::empty(),
            r.spec_capacity() >= capacity,
            capacity == 0 ==> r.spec_capacity() == 0,
    {
        Buf { inner: vec_with_capacity(capacity) }
    }

    /// Empties the buffer and keeps its capacity.
    pub fn clear(&mut self)
        ensures
            final(self)@ == Seq::<u8>::empty(),
            final(self).spec_capacity() == old(self).spec_capacity(),
    {
        vec_clear(&mut self.inner)
    }

    /// How many bytes the buffer can hold without reallocating: never fewer
    /// than it holds.
    #[verifier::when_used_as_spec(spec_capacity)]
    pub fn capacity(&self) -> (c: usize)
        ensures
            c == self.spec_capacity(),
            c >= self@.len(),
    {
        vec_capacity(&self.inner)
    }

    /// Makes room for at least `additional` more bytes. The bytes stay, the
    /// capacity never falls, and nothing is done where the room is there.
    pub fn reserve(&mut self, additional: usize)
        requires
            old(self)@.len() + additional <= isize::MAX,
        ensures
            final(self)@ == old(self)@,
            final(self).spec_capacity() >= old(self)@.len() + additional,
            final(self).spec_capacity() >= old(self).spec_capacity(),
            old(self).spec_capacity() >= old(self)@.len() + additional ==> final(self).spec_capacity()
                == old(self).spec_capacity(),
    {
        vec_reserve(&mut self.inner, additional)
    }

    /// Makes room for `additional` more bytes, asking for no more than that.
    /// The bytes stay, the capacity never falls, and nothing is done where
    /// the room is there.
    pub fn reserve_exact(&mut self, additional: usize)
        requires
            old(self)@.len() + additional <= isize::MAX,
        ensures
            final(self)@ == old(self)@,
            final(self).spec_capacity() >= old(self)@.len() + additional,
            final(self).spec_capacity() >= old(self).spec_capacity(),
            old(self).spec_capacity() >= old(self)@.len() + additional ==> final(self).spec_capacity()
                == old(self).spec_capacity(),
    {
        vec_reserve_exact(&mut self.inner, additional)
    }

    /// Brings the capacity down towards the length. The bytes stay.
    pub fn shrink_to_fit(&mut self)
        ensures
            final(self)@ == old(self)@,
            final(self).spec_capacity() >= final(self)@.len(),
            final(self).spec_capacity() <= old(self).spec_capacity(),
    {
        vec_shrink_to_fit(&mut self.inner)
    }

    pub fn as_slice(&self) -> (r: Slice<'_>)
        ensures
            r@ == self@,
    {
        Slice::from_u8_slice(self.inner.as_slice())
    }

    /// The buffer as text, where all of it is well-formed UTF-8; otherwise
    /// the buffer itself, unchanged.
    pub fn into_string(self) -> (r: Result<String, Buf>)
        ensures
            r is Ok <==> valid_utf8(self@),
            r matches Ok(s) ==> encode_utf8(s@) == self@ && s@ == decode_utf8(self@),
            r matches Err(b) ==> b@ == self@,
    {
        match string_from_utf8(self.inner) {
            Ok(s) => {
                proof {
                    encode_utf8_decode_utf8(s@);
                }
                Ok(s)
            },
            Err(bytes) => Err(Buf { inner: bytes }),
        }
    }

    /// Adds the bytes of `s` at the end. The capacity never falls, and
    /// stays as it is where the bytes fit.
    pub fn push_slice(&mut self, s: &Slice<'_>)
        ensures
            final(self)@ == old(self)@ + s@,
            final(self).spec_capacity() >= old(self).spec_capacity(),
            final(self).spec_capacity() >= final(self)@.len(),
            old(self)@.len() + s@.len() <= old(self).spec_capacity() ==> final(self).spec_capacity()
                == old(self).spec_capacity(),
    {
        vec_extend_from_slice(&mut self.inner, s.inner)
    }

    pub fn into_box(self) -> (r: Box<[u8]>)
        ensures
            r@ == self@,
    {
        vec_into_boxed_slice(self.inner)
    }

    pub fn from_box(boxed: Box<[u8]>) -> (r: Buf)
        ensures
            r@ == boxed@,
    {
        Buf { inner: boxed.into_vec() }
    }

    pub fn into_arc(&self) -> (r: Arc<[u8]>)
        ensures
            (*r)@ == self@,
    {
        self.as_slice().into_arc()
    }

    pub fn into_rc(&self) -> (r: Rc<[u8]>)
        ensures
            (*r)@ == self@,
    {
        self.as_slice().into_rc()
    }
}

} // verus!

//! The representation of a platform string on Unix-like targets: plain
//! bytes, borrowed here and owned in `inner_alloc`.
use std::borrow::Cow;
use std::cmp::Ordering;
use std::rc::Rc;
use std::sync::Arc;
use vstd::prelude::*;
use vstd::slice::slice_to_vec;
use vstd::std_specs::cmp::{PartialEqSpecImpl, PartialOrdSpecImpl};
use vstd::utf8::*;
use crate::alloc_calls::{arc_from_slice, rc_from_slice, vec_into_boxed_slice};
use crate::inner::inner_alloc::Buf;
use crate::lossy::{lossy_text, Utf8Lossy};
use crate::sys_common::bytestring::{debug_fmt_bytestring, debug_text};
use crate::text::str_from_utf8;

pub mod inner_alloc;

verus! {

/// A borrowed window over a contiguous range of bytes.
#[derive(Clone, Copy, Eq, Ord, Hash)]
pub struct Slice<'a> {
    pub inner: &'a [u8],
}

impl<'a> View for Slice<'a> {
    type V = Seq<u8>;

    open spec fn view(&self) -> Seq<u8> {
        self.inner@
    }
}

/// Whether two runs of bytes hold the same bytes in the same order.
pub fn bytes_eq(a: &[u8], b: &[u8]) -> (r: bool)
    ensures
        r == (a@ == b@),
{
    if a.len() != b.len() {
        return false;
    }
    let mut i: usize = 0;
    while i < a.len()
        invariant
            a@.len() == b@.len(),
            i <= a@.len(),
            a@.subrange(0, i as int) == b@.subrange(0, i as int),
        decreases a@.len() - i,
    {
        if a[i] != b[i] {
            return false;
        }
        assert(a@.subrange(0, i + 1) =~= a@.subrange(0, i as int).push(a@[i as int]));
        assert(b@.subrange(0, i + 1) =~= b@.subrange(0, i as int).push(b@[i as int]));
        i += 1;
    }
    assert(a@ =~= a@.subrange(0, i as int));
    assert(b@ =~= b@.subrange(0, i as int));
    true
}

/// Whether `a` comes before `b` in the order of byte strings: at the first
/// place where they differ `a` has the smaller byte, or `a` ends there and
/// `b` goes on.
pub open spec fn bytes_lt(a: Seq<u8>, b: Seq<u8>) -> bool
    decreases a.len(),
{
    if a.len() == 0 {
        b.len() > 0
    } else if b.len() == 0 {
        false
    } else if a[0] != b[0] {
        a[0] < b[0]
    } else {
        bytes_lt(a.drop_first(), b.drop_first())
    }
}

/// Of two byte strings exactly one comes first, unless they are equal, and
/// then neither does.
pub proof fn lemma_bytes_lt_trichotomy(a: Seq<u8>, b: Seq<u8>)
    ensures
        a == b ==> !bytes_lt(a, b) && !bytes_lt(b, a),
        a != b ==> (bytes_lt(a, b) <==> !bytes_lt(b, a)),
    decreases a.len(),
{
    if a.len() > 0 && b.len() > 0 {
        lemma_bytes_lt_trichotomy(a.drop_first(), b.drop_first());
        if a[0] == b[0] && a.drop_first() == b.drop_first() {
            assert(a =~= seq![a[0]] + a.drop_first());
            assert(b =~= seq![b[0]] + b.drop_first());
        }
    } else if a.len() == 0 && b.len() == 0 {
        assert(a =~= b);
    }
}

/// The order of byte strings is transitive.
pub proof fn lemma_bytes_lt_transitive(a: Seq<u8>, b: Seq<u8>, c: Seq<u8>)
    requires
        bytes_lt(a, b),
        bytes_lt(b, c),
    ensures
        bytes_lt(a, c),
    decreases a.len(),
{
    if a.len() > 0 && a[0] == b[0] && b[0] == c[0] {
        lemma_bytes_lt_transitive(a.drop_first(), b.drop_first(), c.drop_first());
    }
}

/// How `a` stands to `b` in the order of byte strings.
pub open spec fn bytes_order(a: Seq<u8>, b: Seq<u8>) -> Ordering {
    if a == b {
        Ordering::Equal
    } else if bytes_lt(a, b) {
        Ordering::Less
    } else {
        Ordering::Greater
    }
}

/// Compares two runs of bytes in the order of byte strings: -1 where `a`
/// comes first, 0 where they are equal, 1 where `b` comes first.
pub fn bytes_compare(a: &[u8], b: &[u8]) -> (r: i8)
    ensures
        r == 0 <==> a@ == b@,
        r == -1 <==> bytes_lt(a@, b@),
        r == 1 <==> bytes_lt(b@, a@),
{
    let mut i: usize = 0;
    assert(a@.skip(0) =~= a@);
    assert(b@.skip(0) =~= b@);
    while i < a.len() && i < b.len()
        invariant
            i <= a@.len(),
            i <= b@.len(),
            a@.subrange(0, i as int) == b@.subrange(0, i as int),
            bytes_lt(a@, b@) == bytes_lt(a@.skip(i as int), b@.skip(i as int)),
        decreases a@.len() - i,
    {
        if a[i] != b[i] {
            proof {
                lemma_bytes_lt_trichotomy(a@, b@);
            }
            return if a[i] < b[i] {
                -1
            } else {
                1
            };
        }
        assert(a@.subrange(0, i + 1) =~= a@.subrange(0, i as int).push(a@[i as int]));
        assert(b@.subrange(0, i + 1) =~= b@.subrange(0, i as int).push(b@[i as int]));
        assert(a@.skip(i as int).drop_first() =~= a@.skip(i + 1));
        assert(b@.skip(i as int).drop_first() =~= b@.skip(i + 1));
        i += 1;
    }
    proof {
        lemma_bytes_lt_trichotomy(a@, b@);
    }
    if a.len() == b.len() {
        assert(a@ =~= a@.subrange(0, i as int));
        assert(b@ =~= b@.subrange(0, i as int));
        0
    } else if a.len() < b.len() {
        -1
    } else {
        1
    }
}

impl<'a> PartialOrd for Slice<'a> {
    /// The order of byte strings.
    fn partial_cmp(&self, other: &Slice<'a>) -> (r: Option<Ordering>) {
        let c = bytes_compare(self.inner, other.inner);
        if c == 0 {
            Some(Ordering::Equal)
        } else if c == -1 {
            Some(Ordering::Less)
        } else {
            Some(Ordering::Greater)
        }
    }
}

impl<'a> PartialOrdSpecImpl for Slice<'a> {
    open spec fn obeys_partial_cmp_spec() -> bool {
        true
    }

    open spec fn partial_cmp_spec(&self, other: &Slice<'a>) -> Option<Ordering> {
        Some(bytes_order(self@, other@))
    }
}

impl<'a> PartialEq for Slice<'a> {
    /// Equality of the bytes.
    fn eq(&self, other: &Slice<'a>) -> (r: bool) {
        bytes_eq(self.inner, other.inner)
    }
}

impl<'a> PartialEqSpecImpl for Slice<'a> {
    open spec fn obeys_eq_spec() -> bool {
        true
    }

    open spec fn eq_spec(&self, other: &Slice<'a>) -> bool {
        self@ == other@
    }
}

impl<'a> Slice<'a> {
    pub fn from_u8_slice(s: &'a [u8]) -> (r: Slice<'a>)
        ensures
            r@ == s@,
    {
        Slice { inner: s }
    }

    pub fn from_str(s: &'a str) -> (r: Slice<'a>)
        ensures
            r@ == encode_utf8(s@),
    {
        Slice::from_u8_slice(s.as_bytes())
    }

    /// The bytes as text, where they are well-formed UTF-8.
    pub fn to_str(&self) -> (r: Option<&'a str>)
        ensures
            r is Some <==> valid_utf8(self@),
            r matches Some(s) ==> encode_utf8(s@) == self@ && s@ == decode_utf8(self@),
    {
        let r = str_from_utf8(self.inner);
        proof {
            if let Some(s) = r {
                encode_utf8_decode_utf8(s@);
            }
        }
        r
    }

    /// The bytes as text, each maximal ill-formed subsequence replaced by
    /// one replacement character.
    pub fn to_string_lossy(&self) -> (r: Cow<'a, str>)
        ensures
            r@ == lossy_text(self@),
            r matches Cow::Borrowed(_) <==> valid_utf8(self@),
    {
        Utf8Lossy::from_bytes(self.inner).to_string_lossy()
    }

    /// The quoted, escaped rendering of the bytes.
    pub fn debug_string(&self) -> (r: String)
        ensures
            r@ == debug_text(self@),
    {
        let mut out = String::new();
        debug_fmt_bytestring(self.inner, &mut out);
        assert(Seq::<char>::empty() + debug_text(self@) =~= debug_text(self@));
        out
    }

    /// The lossy text of the bytes, as `display` shows them.
    pub fn display_string(&self) -> (r: String)
        ensures
            r@ == lossy_text(self@),
    {
        match self.to_string_lossy() {
            Cow::Borrowed(text) => text.to_owned(),
            Cow::Owned(text) => text,
        }
    }

    pub fn to_owned(&self) -> (r: Buf)
        ensures
            r@ == self@,
    {
        Buf { inner: slice_to_vec(self.inner) }
    }

    pub fn into_box(&self) -> (r: Box<[u8]>)
        ensures
            r@ == self@,
    {
        vec_into_boxed_slice(slice_to_vec(self.inner))
    }

    pub fn empty_box() -> (r: Box<[u8]>)
        ensures
            r@ == Seq::<u8>::empty(),
    {
        vec_into_boxed_slice(Vec::new())
    }

    pub fn into_arc(&self) -> (r: Arc<[u8]>)
        ensures
            (*r)@ == self@,
    {
        arc_from_slice(self.inner)
    }

    pub fn into_rc(&self) -> (r: Rc<[u8]>)
        ensures
            (*r)@ == self@,
    {
        rc_from_slice(self.inner)
    }
}

} // verus!

//! Platform strings: the owned `OsString`, its borrowed view `OsStr`, and the
//! boxed, shared and copy-on-write forms that hold the same bytes.
use std::borrow::Cow;
use std::cmp::Ordering;
use std::rc::Rc;
use std::sync::Arc;
use vstd::prelude::*;
use vstd::std_specs::cmp::{PartialEqSpecImpl, PartialOrdSpecImpl};
use vstd::std_specs::convert::FromSpecImpl;
use vstd::string::StringExecFns;
use vstd::utf8::*;
use crate::alloc_calls::{arc_clone, rc_clone};
use crate::inner::inner_alloc::Buf;
use crate::inner::{bytes_eq, bytes_order, Slice};
use crate::lossy::lossy_text;
use crate::sys_common::bytestring::debug_text;
use crate::sys_common::{AsInner, FromInner, IntoInner};

verus! {

/// A type that can represent owned, mutable platform-native strings, but is
/// cheaply inter-convertible with Rust strings.
///
/// It holds arbitrary bytes, which need not be well-formed UTF-8, and is not
/// nul-terminated.
#[derive(Eq, Ord, Hash)]
pub struct OsString {
    inner: Buf,
}

/// Borrowed reference to an OS string (see [`OsString`]).
///
/// It is to `OsString` as `&str` is to `String`: a window over bytes that
/// another value owns.
#[derive(Clone, Copy, Eq, Ord, Hash)]
pub struct OsStr<'a> {
    inner: Slice<'a>,
}

impl View for OsString {
    type V = Seq<u8>;

    closed spec fn view(&self) -> Seq<u8> {
        self.inner@
    }
}

impl<'a> View for OsStr<'a> {
    type V = Seq<u8>;

    closed spec fn view(&self) -> Seq<u8> {
        self.inner@
    }
}

impl PartialEq for OsString {
    /// Equality of the bytes.
    fn eq(&self, other: &OsString) -> (r: bool) {
        self.inner.eq(&other.inner)
    }
}

impl PartialEqSpecImpl for OsString {
    open spec fn obeys_eq_spec() -> bool {
        true
    }

    open spec fn eq_spec(&self, other: &OsString) -> bool {
        self@ == other@
    }
}

impl<'a> PartialEq for OsStr<'a> {
    /// Equality of the bytes.
    fn eq(&self, other: &OsStr<'a>) -> (r: bool) {
        self.inner.eq(&other.inner)
    }
}

impl<'a> PartialEqSpecImpl for OsStr<'a> {
    open spec fn obeys_eq_spec() -> bool {
        true
    }

    open spec fn eq_spec(&self, other: &OsStr<'a>) -> bool {
        self@ == other@
    }
}

impl PartialOrd for OsString {
    /// The order of byte strings.
    fn partial_cmp(&self, other: &OsString) -> (r: Option<Ordering>) {
        self.inner.partial_cmp(&other.inner)
    }
}

impl PartialOrdSpecImpl for OsString {
    open spec fn obeys_partial_cmp_spec() -> bool {
        true
    }

    open spec fn partial_cmp_spec(&self, other: &OsString) -> Option<Ordering> {
        Some(bytes_order(self@, other@))
    }
}

impl<'a> PartialOrd for OsStr<'a> {
    /// The order of byte strings.
    fn partial_cmp(&self, other: &OsStr<'a>) -> (r: Option<Ordering>) {
        self.inner.partial_cmp(&other.inner)
    }
}

impl<'a> PartialOrdSpecImpl for OsStr<'a> {
    open spec fn obeys_partial_cmp_spec() -> bool {
        true
    }

    open spec fn partial_cmp_spec(&self, other: &OsStr<'a>) -> Option<Ordering> {
        Some(bytes_order(self@, other@))
    }
}

impl<'a> PartialEq<str> for OsStr<'a> {
    /// Equality of the bytes.
    fn eq(&self, other: &str) -> (r: bool) {
        bytes_eq(self.inner.inner, other.as_bytes())
    }
}

impl<'a> PartialEqSpecImpl<str> for OsStr<'a> {
    open spec fn obeys_eq_spec() -> bool {
        true
    }

    open spec fn eq_spec(&self, other: &str) -> bool {
        self@ == encode_utf8(other@)
    }
}

impl<'a> PartialEq<OsStr<'a>> for str {
    /// Equality of the bytes.
    fn eq(&self, other: &OsStr<'a>) -> (r: bool) {
        bytes_eq(self.as_bytes(), other.inner.inner)
    }
}

impl<'a> PartialEqSpecImpl<OsStr<'a>> for str {
    open spec fn obeys_eq_spec() -> bool {
        true
    }

    open spec fn eq_spec(&self, other: &OsStr<'a>) -> bool {
        encode_utf8(self@) == other@
    }
}

impl PartialEq<str> for OsString {
    /// Equality of the bytes.
    fn eq(&self, other: &str) -> (r: bool) {
        bytes_eq(self.inner.inner.as_slice(), other.as_bytes())
    }
}

impl PartialEqSpecImpl<str> for OsString {
    open spec fn obeys_eq_spec() -> bool {
        true
    }

    open spec fn eq_spec(&self, other: &str) -> bool {
        self@ == encode_utf8(other@)
    }
}

impl PartialEq<OsString> for str {
    /// Equality of the bytes.
    fn eq(&self, other: &OsString) -> (r: bool) {
        bytes_eq(self.as_bytes(), other.inner.inner.as_slice())
    }
}

impl PartialEqSpecImpl<OsString> for str {
    open spec fn obeys_eq_spec() -> bool {
        true
    }

    open spec fn eq_spec(&self, other: &OsString) -> bool {
        encode_utf8(self@) == other@
    }
}

impl<'b> PartialEq<&'b str> for OsString {
    /// Equality of the bytes.
    fn eq(&self, other: &&'b str) -> (r: bool) {
        bytes_eq(self.inner.inner.as_slice(), other.as_bytes())
    }
}

impl<'b> PartialEqSpecImpl<&'b str> for OsString {
    open spec fn obeys_eq_spec() -> bool {
        true
    }

    open spec fn eq_spec(&self, other: &&'b str) -> bool {
        self@ == encode_utf8(other@)
    }
}

impl<'b> PartialEq<OsString> for &'b str {
    /// Equality of the bytes.
    fn eq(&self, other: &OsString) -> (r: bool) {
        bytes_eq(self.as_bytes(), other.inner.inner.as_slice())
    }
}

impl<'b> PartialEqSpecImpl<OsString> for &'b str {
    open spec fn obeys_eq_spec() -> bool {
        true
    }

    open spec fn eq_spec(&self, other: &OsString) -> bool {
        encode_utf8(self@) == other@
    }
}

impl<'a> PartialEq<OsStr<'a>> for OsString {
    /// Equality of the bytes.
    fn eq(&self, other: &OsStr<'a>) -> (r: bool) {
        self.as_os_str().eq(other)
    }
}

impl<'a> PartialEqSpecImpl<OsStr<'a>> for OsString {
    open spec fn obeys_eq_spec() -> bool {
        true
    }

    open spec fn eq_spec(&self, other: &OsStr<'a>) -> bool {
        self@ == other@
    }
}

impl<'a> PartialEq<OsString> for OsStr<'a> {
    /// Equality of the bytes.
    fn eq(&self, other: &OsString) -> (r: bool) {
        self.eq(&other.as_os_str())
    }
}

impl<'a> PartialEqSpecImpl<OsString> for OsStr<'a> {
    open spec fn obeys_eq_spec() -> bool {
        true
    }

    open spec fn eq_spec(&self, other: &OsString) -> bool {
        self@ == other@
    }
}

impl<'a, 'b> PartialEq<&'b str> for OsStr<'a> {
    /// Equality of the bytes.
    fn eq(&self, other: &&'b str) -> (r: bool) {
        bytes_eq(self.inner.inner, other.as_bytes())
    }
}

impl<'a, 'b> PartialEqSpecImpl<&'b str> for OsStr<'a> {
    open spec fn obeys_eq_spec() -> bool {
        true
    }

    open spec fn eq_spec(&self, other: &&'b str) -> bool {
        self@ == encode_utf8(other@)
    }
}

impl<'a, 'b> PartialEq<OsStr<'a>> for &'b str {
    /// Equality of the bytes.
    fn eq(&self, other: &OsStr<'a>) -> (r: bool) {
        bytes_eq(self.as_bytes(), other.inner.inner)
    }
}

impl<'a, 'b> PartialEqSpecImpl<OsStr<'a>> for &'b str {
    open spec fn obeys_eq_spec() -> bool {
        true
    }

    open spec fn eq_spec(&self, other: &OsStr<'a>) -> bool {
        encode_utf8(self@) == other@
    }
}

impl PartialOrd<str> for OsString {
    /// The order of byte strings, the text taken by its UTF-8 encoding.
    fn partial_cmp(&self, other: &str) -> (r: Option<Ordering>) {
        self.inner.as_slice().partial_cmp(&Slice::from_str(other))
    }
}

impl PartialOrdSpecImpl<str> for OsString {
    open spec fn obeys_partial_cmp_spec() -> bool {
        true
    }

    open spec fn partial_cmp_spec(&self, other: &str) -> Option<Ordering> {
        Some(bytes_order(self@, encode_utf8(other@)))
    }
}

impl<'a> PartialOrd<str> for OsStr<'a> {
    /// The order of byte strings, the text taken by its UTF-8 encoding.
    fn partial_cmp(&self, other: &str) -> (r: Option<Ordering>) {
        self.inner.partial_cmp(&Slice::from_str(other))
    }
}

impl<'a> PartialOrdSpecImpl<str> for OsStr<'a> {
    open spec fn obeys_partial_cmp_spec() -> bool {
        true
    }

    open spec fn partial_cmp_spec(&self, other: &str) -> Option<Ordering> {
        Some(bytes_order(self@, encode_utf8(other@)))
    }
}

/// A value that can be read as a platform string without a copy.
pub trait AsOsStr {
    /// The bytes that the platform string holds.
    spec fn os_bytes(&self) -> Seq<u8>;

    fn os_str(&self) -> (r: OsStr<'_>)
        ensures
            r@ == self.os_bytes(),
    ;
}

impl AsOsStr for str {
    open spec fn os_bytes(&self) -> Seq<u8> {
        encode_utf8(self@)
    }

    fn os_str(&self) -> (r: OsStr<'_>) {
        OsStr::from_inner(Slice::from_str(self))
    }
}

impl AsOsStr for String {
    open spec fn os_bytes(&self) -> Seq<u8> {
        encode_utf8(self@)
    }

    fn os_str(&self) -> (r: OsStr<'_>) {
        OsStr::from_inner(Slice::from_str(self.as_str()))
    }
}

impl<'a> AsOsStr for OsStr<'a> {
    open spec fn os_bytes(&self) -> Seq<u8> {
        self@
    }

    fn os_str(&self) -> (r: OsStr<'_>) {
        *self
    }
}

impl AsOsStr for OsString {
    open spec fn os_bytes(&self) -> Seq<u8> {
        self@
    }

    fn os_str(&self) -> (r: OsStr<'_>) {
        self.as_os_str()
    }
}

impl<'b, T: AsOsStr + ?Sized> AsOsStr for &'b T {
    open spec fn os_bytes(&self) -> Seq<u8> {
        (**self).os_bytes()
    }

    fn os_str(&self) -> (r: OsStr<'_>) {
        (**self).os_str()
    }
}

impl OsString {
    /// The capacity of the string's buffer.
    pub closed spec fn spec_capacity(&self) -> usize {
        self.inner.spec_capacity()
    }

    /// Constructs a new empty `OsString`. It allocates nothing.
    pub fn new() -> (r: OsString)
        ensures
            r@ == Seq::<u8>::empty(),
            r.spec_capacity() == 0,
    {
        OsString { inner: Buf::with_capacity(0) }
    }

    /// Takes over a vector of bytes, without a copy.
    pub fn from_vec(vec: Vec<u8>) -> (r: OsString)
        ensures
            r@ == vec@,
    {
        OsString { inner: Buf { inner: vec } }
    }

    /// Yields the underlying bytes, without a copy.
    pub fn into_vec(self) -> (r: Vec<u8>)
        ensures
            r@ == self@,
    {
        self.inner.inner
    }

    /// Converts to an [`OsStr`] slice.
    pub fn as_os_str(&self) -> (r: OsStr<'_>)
        ensures
            r@ == self@,
    {
        OsStr::from_inner(self.inner.as_slice())
    }

    /// Converts the `OsString` into a [`String`] if it contains valid Unicode data.
    ///
    /// On failure, the `OsString` is handed back as it was.
    pub fn into_string(self) -> (r: Result<String, OsString>)
        ensures
            r is Ok <==> valid_utf8(self@),
            r matches Ok(s) ==> encode_utf8(s@) == self@ && s@ == decode_utf8(self@),
            r matches Err(s) ==> s@ == self@,
    {
        match self.inner.into_string() {
            Ok(s) => Ok(s),
            Err(buf) => Err(OsString { inner: buf }),
        }
    }

    /// Extends the string with the given [`OsStr`] slice. The capacity never
    /// falls, and stays as it is where the bytes fit.
    pub fn push<T: AsOsStr>(&mut self, s: T)
        ensures
            final(self)@ == old(self)@ + s.os_bytes(),
            final(self).spec_capacity() >= old(self).spec_capacity(),
            final(self).spec_capacity() >= final(self)@.len(),
            old(self)@.len() + s.os_bytes().len() <= old(self).spec_capacity() ==> final(self).spec_capacity()
                == old(self).spec_capacity(),
    {
        let view = s.os_str();
        self.inner.push_slice(&view.inner)
    }

    /// Creates a new `OsString` with the given capacity.
    ///
    /// The string will be able to hold at least `capacity` length units of
    /// other OS strings without reallocating. If `capacity` is 0, the string
    /// will not allocate.
    pub fn with_capacity(capacity: usize) -> (r: OsString)
        requires
            capacity <= isize::MAX,
        ensures
            r@ == Seq::<u8>::empty(),
            r.spec_capacity() >= capacity,
            capacity == 0 ==> r.spec_capacity() == 0,
    {
        OsString { inner: Buf::with_capacity(capacity) }
    }

    /// Truncates the `OsString` to zero length. The capacity is kept.
    pub fn clear(&mut self)
        ensures
            final(self)@ == Seq::<u8>::empty(),
            final(self).spec_capacity() == old(self).spec_capacity(),
    {
        self.inner.clear()
    }

    /// Returns the capacity this `OsString` can hold without reallocating:
    /// never less than its length.
    #[verifier::when_used_as_spec(spec_capacity)]
    pub fn capacity(&self) -> (c: usize)
        ensures
            c == self.spec_capacity(),
            c >= self@.len(),
    {
        self.inner.capacity()
    }

    /// Reserves capacity for at least `additional` more capacity to be inserted
    /// in the given `OsString`.
    ///
    /// The collection may reserve more space to avoid frequent reallocations.
    /// The capacity never falls, and nothing is done where the room is there.
    pub fn reserve(&mut self, additional: usize)
        requires
            old(self)@.len() + additional <= isize::MAX,
        ensures
            final(self)@ == old(self)@,
            final(self).spec_capacity() >= old(self)@.len() + additional,
            final(self).spec_capacity() >= old(self).spec_capacity(),
            old(self).spec_capacity() >= old(self)@.len() + additional ==> final(self).spec_capacity()
                == old(self).spec_capacity(),
    {
        self.inner.reserve(additional)
    }

    /// Reserves the minimum capacity for exactly `additional` more capacity to
    /// be inserted in the given `OsString`. Does nothing if the capacity is
    /// already sufficient.
    ///
    /// The allocator may give more space than is asked for, so the capacity
    /// afterwards is at least the length and `additional`, not that exactly.
    pub fn reserve_exact(&mut self, additional: usize)
        requires
            old(self)@.len() + additional <= isize::MAX,
        ensures
            final(self)@ == old(self)@,
            final(self).spec_capacity() >= old(self)@.len() + additional,
            final(self).spec_capacity() >= old(self).spec_capacity(),
            old(self).spec_capacity() >= old(self)@.len() + additional ==> final(self).spec_capacity()
                == old(self).spec_capacity(),
    {
        self.inner.reserve_exact(additional)
    }

    /// Shrinks the capacity of the `OsString` towards its length: never
    /// below the length, never above what it was.
    pub fn shrink_to_fit(&mut self)
        ensures
            final(self)@ == old(self)@,
            final(self).spec_capacity() >= final(self)@.len(),
            final(self).spec_capacity() <= old(self).spec_capacity(),
    {
        self.inner.shrink_to_fit()
    }

    /// Checks whether the string is empty.
    pub fn is_empty(&self) -> (r: bool)
        ensures
            r == (self@.len() == 0),
    {
        self.as_os_str().is_empty()
    }

    /// Returns the length of the string, in bytes.
    pub fn len(&self) -> (r: usize)
        ensures
            r == self@.len(),
    {
        self.as_os_str().len()
    }

    /// Converts this `OsString` into a boxed [`OsStr`], without a copy of
    /// the bytes where the buffer is full.
    pub fn into_boxed_os_str(self) -> (r: BoxedOsStr)
        ensures
            r@ == self@,
    {
        BoxedOsStr { inner: self.inner.into_box() }
    }
}

impl From<String> for OsString {
    /// Converts a [`String`] into an [`OsString`], taking over its bytes.
    fn from(s: String) -> (r: OsString)
        ensures
            r@ == encode_utf8(s@),
    {
        OsString { inner: Buf::from_string(s) }
    }
}

impl FromSpecImpl<String> for OsString {
    open spec fn obeys_from_spec() -> bool {
        false
    }

    open spec fn from_spec(s: String) -> OsString {
        arbitrary()
    }
}

impl<'b, T: ?Sized + AsOsStr> From<&'b T> for OsString {
    /// Copies the platform string that `s` can be read as.
    fn from(s: &'b T) -> (r: OsString)
        ensures
            r@ == s.os_bytes(),
    {
        s.os_str().to_os_string()
    }
}

impl<'b, T: ?Sized + AsOsStr> FromSpecImpl<&'b T> for OsString {
    open spec fn obeys_from_spec() -> bool {
        false
    }

    open spec fn from_spec(s: &'b T) -> OsString {
        arbitrary()
    }
}

impl From<BoxedOsStr> for OsString {
    /// Converts a boxed string into an [`OsString`] without copying or allocating.
    fn from(s: BoxedOsStr) -> (r: OsString)
        ensures
            r@ == s@,
    {
        s.into_os_string()
    }
}

impl FromSpecImpl<BoxedOsStr> for OsString {
    open spec fn obeys_from_spec() -> bool {
        false
    }

    open spec fn from_spec(s: BoxedOsStr) -> OsString {
        arbitrary()
    }
}

impl<'a> From<CowOsStr<'a>> for OsString {
    /// The owned string: a copy of what was borrowed, or the string that was owned already.
    fn from(s: CowOsStr<'a>) -> (r: OsString)
        ensures
            r@ == s@,
    {
        s.into_owned()
    }
}

impl<'a> FromSpecImpl<CowOsStr<'a>> for OsString {
    open spec fn obeys_from_spec() -> bool {
        false
    }

    open spec fn from_spec(s: CowOsStr<'a>) -> OsString {
        arbitrary()
    }
}

impl Clone for OsString {
    /// A string of its own with the same bytes.
    fn clone(&self) -> (r: OsString)
        ensures
            r@ == self@,
    {
        OsString { inner: self.inner.clone() }
    }
}

impl Default for OsString {
    /// Constructs an empty `OsString`.
    fn default() -> (r: OsString)
        ensures
            r@ == Seq::<u8>::empty(),
            r.spec_capacity() == 0,
    {
        OsString::new()
    }
}

impl FromInner<Buf> for OsString {
    fn from_inner(buf: Buf) -> (r: OsString)
        ensures
            r@ == buf@,
    {
        OsString { inner: buf }
    }
}

impl IntoInner<Buf> for OsString {
    fn into_inner(self) -> (r: Buf)
        ensures
            r@ == self@,
    {
        self.inner
    }
}

impl<'a> AsInner<Slice<'a>> for OsStr<'a> {
    fn as_inner(&self) -> (r: &Slice<'a>)
        ensures
            r@ == self@,
    {
        &self.inner
    }
}

impl<'a> OsStr<'a> {
    /// Coerces into an `OsStr` slice.
    pub fn new<S: AsOsStr + ?Sized>(s: &'a S) -> (r: OsStr<'a>)
        ensures
            r@ == s.os_bytes(),
    {
        s.os_str()
    }

    /// A view of the given bytes.
    pub fn from_bytes(slice: &'a [u8]) -> (r: OsStr<'a>)
        ensures
            r@ == slice@,
    {
        OsStr { inner: Slice::from_u8_slice(slice) }
    }

    /// Gets the underlying byte view of the `OsStr` slice.
    pub fn as_bytes(&self) -> (r: &'a [u8])
        ensures
            r@ == self@,
    {
        self.inner.inner
    }

    pub(crate) fn from_inner(inner: Slice<'a>) -> (r: OsStr<'a>)
        ensures
            r@ == inner@,
    {
        OsStr { inner }
    }

    /// Yields a [`&str`] slice if the `OsStr` is valid Unicode.
    ///
    /// This conversion may entail doing a check for UTF-8 validity.
    pub fn to_str(&self) -> (r: Option<&'a str>)
        ensures
            r is Some <==> valid_utf8(self@),
            r matches Some(s) ==> encode_utf8(s@) == self@ && s@ == decode_utf8(self@),
    {
        self.inner.to_str()
    }

    /// Converts an `OsStr` to a [`Cow`]`<`[`str`]`>`.
    ///
    /// Any non-Unicode sequences are replaced with
    /// `U+FFFD REPLACEMENT CHARACTER`.
    pub fn to_string_lossy(&self) -> (r: Cow<'a, str>)
        ensures
            r@ == lossy_text(self@),
            r matches Cow::Borrowed(_) <==> valid_utf8(self@),
    {
        self.inner.to_string_lossy()
    }

    /// Copies the slice into an owned [`OsString`].
    pub fn to_os_string(&self) -> (r: OsString)
        ensures
            r@ == self@,
    {
        OsString { inner: self.inner.to_owned() }
    }

    /// Checks whether the `OsStr` is empty.
    pub fn is_empty(&self) -> (r: bool)
        ensures
            r == (self@.len() == 0),
    {
        self.inner.inner.len() == 0
    }

    /// Returns the length of this `OsStr`, in bytes.
    pub fn len(&self) -> (r: usize)
        ensures
            r == self@.len(),
    {
        self.inner.inner.len()
    }

    /// Writes the lossy text of the string to `formatter`.
    pub fn display(&self, formatter: &mut String)
        ensures
            final(formatter)@ == old(formatter)@ + lossy_text(self@),
    {
        let text = self.inner.display_string();
        formatter.append(text.as_str());
    }

    /// The quoted, escaped rendering of the string for diagnostics.
    pub fn debug_string(&self) -> (r: String)
        ensures
            r@ == debug_text(self@),
    {
        self.inner.debug_string()
    }
}

impl<'a> Default for OsStr<'a> {
    /// Creates an empty `OsStr`.
    fn default() -> (r: OsStr<'a>)
        ensures
            r@ == Seq::<u8>::empty(),
    {
        proof {
            reveal_strlit("");
            assert(encode_utf8(""@) =~= Seq::<u8>::empty());
        }
        OsStr::new("")
    }
}

/// An exclusively owned platform string in an allocation of exactly its
/// length.
#[derive(Eq, Ord, Hash)]
pub struct BoxedOsStr {
    inner: Box<[u8]>,
}

impl View for BoxedOsStr {
    type V = Seq<u8>;

    closed spec fn view(&self) -> Seq<u8> {
        self.inner@
    }
}

impl BoxedOsStr {
    /// A view of the boxed bytes.
    pub fn as_os_str(&self) -> (r: OsStr<'_>)
        ensures
            r@ == self@,
    {
        OsStr::from_bytes(&*self.inner)
    }

    /// Converts a boxed string into an [`OsString`] without copying or allocating.
    pub fn into_os_string(self) -> (r: OsString)
        ensures
            r@ == self@,
    {
        OsString { inner: Buf::from_box(self.inner) }
    }
}

impl<'a> From<OsStr<'a>> for BoxedOsStr {
    /// A box with a copy of the bytes of `s`.
    fn from(s: OsStr<'a>) -> (r: BoxedOsStr)
        ensures
            r@ == s@,
    {
        BoxedOsStr { inner: s.inner.into_box() }
    }
}

impl<'a> FromSpecImpl<OsStr<'a>> for BoxedOsStr {
    open spec fn obeys_from_spec() -> bool {
        false
    }

    open spec fn from_spec(s: OsStr<'a>) -> BoxedOsStr {
        arbitrary()
    }
}

impl From<OsString> for BoxedOsStr {
    /// Converts an [`OsString`] into a boxed string without copying the bytes.
    fn from(s: OsString) -> (r: BoxedOsStr)
        ensures
            r@ == s@,
    {
        s.into_boxed_os_str()
    }
}

impl FromSpecImpl<OsString> for BoxedOsStr {
    open spec fn obeys_from_spec() -> bool {
        false
    }

    open spec fn from_spec(s: OsString) -> BoxedOsStr {
        arbitrary()
    }
}

impl PartialEq for BoxedOsStr {
    /// Equality of the bytes.
    fn eq(&self, other: &BoxedOsStr) -> (r: bool) {
        bytes_eq(&*self.inner, &*other.inner)
    }
}

impl PartialEqSpecImpl for BoxedOsStr {
    open spec fn obeys_eq_spec() -> bool {
        true
    }

    open spec fn eq_spec(&self, other: &BoxedOsStr) -> bool {
        self@ == other@
    }
}

impl PartialOrd for BoxedOsStr {
    /// The order of byte strings.
    fn partial_cmp(&self, other: &BoxedOsStr) -> (r: Option<Ordering>) {
        self.as_os_str().partial_cmp(&other.as_os_str())
    }
}

impl PartialOrdSpecImpl for BoxedOsStr {
    open spec fn obeys_partial_cmp_spec() -> bool {
        true
    }

    open spec fn partial_cmp_spec(&self, other: &BoxedOsStr) -> Option<Ordering> {
        Some(bytes_order(self@, other@))
    }
}

impl Clone for BoxedOsStr {
    fn clone(&self) -> (r: BoxedOsStr)
        ensures
            r@ == self@,
    {
        self.as_os_str().to_os_string().into_boxed_os_str()
    }
}

impl Default for BoxedOsStr {
    fn default() -> (r: BoxedOsStr)
        ensures
            r@ == Seq::<u8>::empty(),
    {
        BoxedOsStr { inner: Slice::empty_box() }
    }
}

/// A platform string behind a reference count, for use within one thread.
/// Its bytes are read-only.
pub struct RcOsStr {
    inner: Rc<[u8]>,
}

impl View for RcOsStr {
    type V = Seq<u8>;

    closed spec fn view(&self) -> Seq<u8> {
        (*self.inner)@
    }
}

impl RcOsStr {
    /// A view of the shared bytes.
    pub fn as_os_str(&self) -> (r: OsStr<'_>)
        ensures
            r@ == self@,
    {
        OsStr::from_bytes(&*self.inner)
    }

    /// An owned string with a copy of the shared bytes.
    pub fn to_os_string(&self) -> (r: OsString)
        ensures
            r@ == self@,
    {
        self.as_os_str().to_os_string()
    }
}

impl From<OsString> for RcOsStr {
    /// A counted allocation with the bytes of `s`.
    fn from(s: OsString) -> (r: RcOsStr)
        ensures
            r@ == s@,
    {
        RcOsStr { inner: s.inner.into_rc() }
    }
}

impl FromSpecImpl<OsString> for RcOsStr {
    open spec fn obeys_from_spec() -> bool {
        false
    }

    open spec fn from_spec(s: OsString) -> RcOsStr {
        arbitrary()
    }
}

impl<'a> From<OsStr<'a>> for RcOsStr {
    /// A counted allocation with a copy of the bytes of `s`.
    fn from(s: OsStr<'a>) -> (r: RcOsStr)
        ensures
            r@ == s@,
    {
        RcOsStr { inner: s.inner.into_rc() }
    }
}

impl<'a> FromSpecImpl<OsStr<'a>> for RcOsStr {
    open spec fn obeys_from_spec() -> bool {
        false
    }

    open spec fn from_spec(s: OsStr<'a>) -> RcOsStr {
        arbitrary()
    }
}

impl Clone for RcOsStr {
    /// Another holder of the same bytes.
    fn clone(&self) -> (r: RcOsStr)
        ensures
            r@ == self@,
    {
        RcOsStr { inner: rc_clone(&self.inner) }
    }
}

/// A platform string behind an atomic reference count, which threads may
/// share. Its bytes are read-only.
pub struct ArcOsStr {
    inner: Arc<[u8]>,
}

impl View for ArcOsStr {
    type V = Seq<u8>;

    closed spec fn view(&self) -> Seq<u8> {
        (*self.inner)@
    }
}

impl ArcOsStr {
    /// A view of the shared bytes.
    pub fn as_os_str(&self) -> (r: OsStr<'_>)
        ensures
            r@ == self@,
    {
        OsStr::from_bytes(&*self.inner)
    }

    /// An owned string with a copy of the shared bytes.
    pub fn to_os_string(&self) -> (r: OsString)
        ensures
            r@ == self@,
    {
        self.as_os_str().to_os_string()
    }
}

impl From<OsString> for ArcOsStr {
    /// A atomically counted allocation with the bytes of `s`.
    fn from(s: OsString) -> (r: ArcOsStr)
        ensures
            r@ == s@,
    {
        ArcOsStr { inner: s.inner.into_arc() }
    }
}

impl FromSpecImpl<OsString> for ArcOsStr {
    open spec fn obeys_from_spec() -> bool {
        false
    }

    open spec fn from_spec(s: OsString) -> ArcOsStr {
        arbitrary()
    }
}

impl<'a> From<OsStr<'a>> for ArcOsStr {
    /// A atomically counted allocation with a copy of the bytes of `s`.
    fn from(s: OsStr<'a>) -> (r: ArcOsStr)
        ensures
            r@ == s@,
    {
        ArcOsStr { inner: s.inner.into_arc() }
    }
}

impl<'a> FromSpecImpl<OsStr<'a>> for ArcOsStr {
    open spec fn obeys_from_spec() -> bool {
        false
    }

    open spec fn from_spec(s: OsStr<'a>) -> ArcOsStr {
        arbitrary()
    }
}

impl Clone for ArcOsStr {
    /// Another holder of the same bytes.
    fn clone(&self) -> (r: ArcOsStr)
        ensures
            r@ == self@,
    {
        ArcOsStr { inner: arc_clone(&self.inner) }
    }
}

/// A platform string that is either borrowed or owned. It is copied into a
/// buffer of its own before the first change, and stays owned from then on.
pub enum CowOsStr<'a> {
    Borrowed(OsStr<'a>),
    Owned(OsString),
}

impl<'a> View for CowOsStr<'a> {
    type V = Seq<u8>;

    open spec fn view(&self) -> Seq<u8> {
        match self {
            CowOsStr::Borrowed(s) => s@,
            CowOsStr::Owned(s) => s@,
        }
    }
}

impl<'a> Clone for CowOsStr<'a> {
    /// A borrowed value is borrowed again; an owned one is copied.
    fn clone(&self) -> (r: CowOsStr<'a>)
        ensures
            r@ == self@,
            r is Borrowed <==> self is Borrowed,
    {
        match self {
            CowOsStr::Borrowed(s) => CowOsStr::Borrowed(*s),
            CowOsStr::Owned(s) => CowOsStr::Owned(s.clone()),
        }
    }
}

impl<'a> CowOsStr<'a> {
    pub fn is_borrowed(&self) -> (r: bool)
        ensures
            r == (self is Borrowed),
    {
        match self {
            CowOsStr::Borrowed(_) => true,
            CowOsStr::Owned(_) => false,
        }
    }

    pub fn is_owned(&self) -> (r: bool)
        ensures
            r == (self is Owned),
    {
        !self.is_borrowed()
    }

    /// A view of the bytes, whoever owns them.
    pub fn as_os_str(&self) -> (r: OsStr<'_>)
        ensures
            r@ == self@,
    {
        match self {
            CowOsStr::Borrowed(s) => *s,
            CowOsStr::Owned(s) => s.as_os_str(),
        }
    }

    /// The owned string: a copy of what was borrowed, or the string that was
    /// owned already, itself.
    pub fn into_owned(self) -> (r: OsString)
        ensures
            r@ == self@,
            self matches CowOsStr::Owned(s) ==> r == s,
    {
        match self {
            CowOsStr::Borrowed(s) => s.to_os_string(),
            CowOsStr::Owned(s) => s,
        }
    }

    /// Copies borrowed bytes into a buffer of the value's own. An owned
    /// value is left as it is.
    pub fn make_owned(&mut self)
        ensures
            (*final(self)) is Owned,
            final(self)@ == old(self)@,
            (*old(self)) is Owned ==> *final(self) == *old(self),
    {
        match self {
            CowOsStr::Borrowed(s) => {
                let owned = s.to_os_string();
                *self = CowOsStr::Owned(owned);
            },
            CowOsStr::Owned(_) => {},
        }
    }

    /// Extends the string with the given [`OsStr`] slice, after copying
    /// borrowed bytes into a buffer of the value's own.
    pub fn push<T: AsOsStr>(&mut self, s: T)
        ensures
            (*final(self)) is Owned,
            final(self)@ == old(self)@ + s.os_bytes(),
    {
        self.make_owned();
        match self {
            CowOsStr::Owned(owned) => owned.push(s),
            CowOsStr::Borrowed(_) => {},
        }
    }

    /// Truncates the string to zero length. The value is owned afterwards.
    pub fn clear(&mut self)
        ensures
            (*final(self)) is Owned,
            final(self)@ == Seq::<u8>::empty(),
    {
        self.make_owned();
        match self {
            CowOsStr::Owned(owned) => owned.clear(),
            CowOsStr::Borrowed(_) => {},
        }
    }
}

impl<'a> From<OsString> for CowOsStr<'a> {
    /// An owned value that holds `s`.
    fn from(s: OsString) -> (r: CowOsStr<'a>)
        ensures
            r == CowOsStr::<'a>::Owned(s),
    {
        CowOsStr::Owned(s)
    }
}

impl<'a> FromSpecImpl<OsString> for CowOsStr<'a> {
    open spec fn obeys_from_spec() -> bool {
        true
    }

    open spec fn from_spec(s: OsString) -> CowOsStr<'a> {
        CowOsStr::Owned(s)
    }
}

impl<'a> From<OsStr<'a>> for CowOsStr<'a> {
    /// A borrowed value over `s`.
    fn from(s: OsStr<'a>) -> (r: CowOsStr<'a>)
        ensures
            r == CowOsStr::Borrowed(s),
    {
        CowOsStr::Borrowed(s)
    }
}

impl<'a> FromSpecImpl<OsStr<'a>> for CowOsStr<'a> {
    open spec fn obeys_from_spec() -> bool {
        true
    }

    open spec fn from_spec(s: OsStr<'a>) -> CowOsStr<'a> {
        CowOsStr::Borrowed(s)
    }
}

impl<'a> From<&'a OsString> for CowOsStr<'a> {
    /// A borrowed value over the bytes of `s`.
    fn from(s: &'a OsString) -> (r: CowOsStr<'a>)
        ensures
            r is Borrowed,
            r@ == s@,
    {
        CowOsStr::Borrowed(s.as_os_str())
    }
}

impl<'a> FromSpecImpl<&'a OsString> for CowOsStr<'a> {
    open spec fn obeys_from_spec() -> bool {
        false
    }

    open spec fn from_spec(s: &'a OsString) -> CowOsStr<'a> {
        arbitrary()
    }
}

} // verus!

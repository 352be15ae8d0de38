//! The calls into the standard library's text functions whose behaviour is
//! not proved here. Each contract is taken on trust from the standard
//! library's documentation.
use vstd::prelude::*;
use vstd::utf8::*;
use crate::sys_common::bytestring::escape_debug_of;

verus! {

/// `core::str::from_utf8`: the bytes are returned as text exactly where they
/// are well-formed UTF-8, and the text then has those very bytes.
#[verifier::external_body]
pub(crate) fn str_from_utf8<'a>(v: &'a [u8]) -> (r: Option<&'a str>)
    ensures
        r is Some <==> valid_utf8(v@),
        r matches Some(s) ==> encode_utf8(s@) == v@,
{
    core::str::from_utf8(v).ok()
}

/// `String::from_utf8`: well-formed bytes become the text that they encode,
/// without a copy; any others are handed back unchanged.
#[verifier::external_body]
pub(crate) fn string_from_utf8(v: Vec<u8>) -> (r: Result<String, Vec<u8>>)
    ensures
        r is Ok <==> valid_utf8(v@),
        r matches Ok(s) ==> encode_utf8(s@) == v@,
        r matches Err(b) ==> b@ == v@,
{
    String::from_utf8(v).map_err(|e| e.into_bytes())
}

/// `String::into_bytes`: the UTF-8 encoding of the text.
#[verifier::external_body]
pub(crate) fn string_into_bytes(s: String) -> (v: Vec<u8>)
    ensures
        v@ == encode_utf8(s@),
{
    s.into_bytes()
}

/// `String::push`: the character is added at the end.
#[verifier::external_body]
pub(crate) fn string_push(s: &mut String, c: char)
    ensures
        final(s)@ == old(s)@.push(c),
{
    s.push(c)
}

/// `char::escape_debug`: the debug escape of the character `c`, collected
/// into a text.
#[verifier::external_body]
pub(crate) fn escape_debug(c: char) -> (r: String)
    ensures
        r@ == escape_debug_of(c),
{
    c.escape_debug().to_string()
}

} // verus!

//! The few operations on strings of std that the processes need and vstd does
//! not specify.
use vstd::prelude::*;
use vstd::utf8::{decode_utf8, encode_utf8, valid_utf8};

verus! {

/// `String::push`: appends `c` to the end of `s`.
#[verifier::external_body]
pub(crate) fn string_push(s: &mut String, c: char)
    ensures
        final(s)@ == old(s)@.push(c),
{
    s.push(c)
}

/// `String::shrink_to_fit`: lowers the capacity of `s`; its content stays.
#[verifier::external_body]
pub(crate) fn string_shrink_to_fit(s: &mut String)
    ensures
        final(s)@ == old(s)@,
{
    s.shrink_to_fit()
}

/// `String::into_bytes`: the UTF-8 encoding of `s`.
#[verifier::external_body]
pub(crate) fn string_into_bytes(s: String) -> (b: Vec<u8>)
    ensures
        b@ == encode_utf8(s@),
{
    s.into_bytes()
}

/// `core::str::from_utf8`: the text that `bytes` encode, when they are valid UTF-8.
#[verifier::external_body]
pub(crate) fn str_from_utf8(bytes: &[u8]) -> (r: Option<&str>)
    ensures
        r is Some <==> valid_utf8(bytes@),
        r matches Some(s) ==> s@ == decode_utf8(bytes@),
{
    core::str::from_utf8(bytes).ok()
}

} // verus!

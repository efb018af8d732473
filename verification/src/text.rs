//! Text decoding of clipboard payloads.
use vstd::prelude::*;
use crate::error::Error;

verus! {

/// Decodes UTF-8 bytes with `String::from_utf8`.
///
/// Trusted: as `std` documents, the conversion succeeds exactly on valid UTF-8, and then gives
/// the characters that the bytes encode.
#[verifier::external_body]
fn string_from_utf8(bytes: Vec<u8>) -> (r: Option<String>)
    ensures
        r is Some <==> vstd::utf8::valid_utf8(bytes@),
        r matches Some(s) ==> s@ == vstd::utf8::decode_utf8(bytes@),
{
    String::from_utf8(bytes).ok()
}

/// Appends a character with `String::push`.
///
/// Trusted: the string afterwards holds its former characters followed by `c`.
#[verifier::external_body]
fn string_push(s: &mut String, c: char)
    ensures
        final(s)@ == old(s)@.push(c),
{
    s.push(c)
}

/// Decodes UTF-8 text; invalid UTF-8 is a conversion failure.
pub fn utf8_text(bytes: Vec<u8>) -> (r: Result<String, Error>)
    ensures
        vstd::utf8::valid_utf8(bytes@) ==> (r matches Ok(s) && s@ == vstd::utf8::decode_utf8(
            bytes@,
        )),
        !vstd::utf8::valid_utf8(bytes@) ==> r == Err::<String, Error>(Error::ConversionFailure),
{
    match string_from_utf8(bytes) {
        Some(s) => Ok(s),
        None => Err(Error::ConversionFailure),
    }
}

/// The characters of ISO Latin-1 text: every byte is the code point of its character.
pub open spec fn latin1_chars(bytes: Seq<u8>) -> Seq<char> {
    Seq::new(bytes.len(), |i: int| bytes[i] as char)
}

/// Decodes ISO Latin-1 text.
pub fn latin1_text(bytes: &[u8]) -> (s: String)
    ensures
        s@ == latin1_chars(bytes@),
{
    let mut s = String::new();
    let mut i: usize = 0;
    while i < bytes.len()
        invariant
            i <= bytes@.len(),
            s@ == latin1_chars(bytes@.subrange(0, i as int)),
        decreases bytes@.len() - i,
    {
        string_push(&mut s, bytes[i] as char);
        i = i + 1;
        proof {
            assert(latin1_chars(bytes@.subrange(0, i as int)) =~= latin1_chars(
                bytes@.subrange(0, i - 1),
            ).push(bytes@[i - 1] as char));
        }
    }
    proof {
        assert(bytes@.subrange(0, i as int) =~= bytes@);
    }
    s
}

} // verus!

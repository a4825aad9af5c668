use vstd::prelude::*;
use vstd::utf8::decode_utf8;
use vstd::utf8::decode_utf8_encode_utf8;
use vstd::utf8::encode_utf8;
use vstd::utf8::valid_utf8;

use crate::errors::LoadError;

verus! {

/// Turn the byte contents of a file into a reference that stays valid for
/// the rest of the program.
///
/// This is the deliberate trade-off of the whole facility: the buffer is
/// permanently retained (it is never returned to the allocator), which is
/// the only way to hand out a reference outliving every stack frame without
/// reference counting or a global registry.  Every call retains a fresh,
/// independent buffer, even for identical contents.
///
/// Relies on `Vec::into_boxed_slice` and `Box::leak`: the returned
/// reference points to the bytes the vector held, and the allocation is
/// never freed.
#[verifier::external_body]
pub fn load_file_bytes(contents: Vec<u8>) -> (r: &'static [u8])
    ensures
        r@ == contents@,
{
    Box::leak(contents.into_boxed_slice())
}

/// Relies on `core::str::from_utf8`: the call returns `Ok` exactly when the
/// bytes are valid UTF-8, and the returned string borrows those same bytes,
/// so its characters are their decoding.
#[verifier::external_body]
fn utf8_to_str(bytes: &'static [u8]) -> (r: Option<&'static str>)
    ensures
        r is Some <==> valid_utf8(bytes@),
        r matches Some(s) ==> s@ == decode_utf8(bytes@),
{
    core::str::from_utf8(bytes).ok()
}

/// Turn the byte contents of a file into a text reference that stays valid
/// for the rest of the program.
///
/// Layered on [`load_file_bytes`] plus UTF-8 validation, so the bytes are
/// retained even when validation fails: there is no rollback of the leak.
pub fn load_file_str(contents: Vec<u8>) -> (r: Result<&'static str, LoadError>)
    ensures
        r is Ok <==> valid_utf8(contents@),
        r matches Ok(s) ==> s@ == decode_utf8(contents@),
        r matches Err(e) ==> e == LoadError::InvalidEncoding,
{
    let bytes = load_file_bytes(contents);
    match utf8_to_str(bytes) {
        Some(s) => Ok(s),
        None => Err(LoadError::InvalidEncoding),
    }
}

/// Loading bytes is deterministic in the contents alone: any two calls of
/// [`load_file_bytes`] on vectors holding equal bytes return references
/// holding equal bytes, even though each call retains its own fresh
/// buffer.  Nothing the library exposes can mutate a loaded buffer, so
/// independence of the two allocations reduces to this equality of
/// content.
pub proof fn lemma_equal_contents_load_alike(
    c1: Vec<u8>,
    c2: Vec<u8>,
    r1: &'static [u8],
    r2: &'static [u8],
)
    requires
        c1@ == c2@,
        call_ensures(load_file_bytes, (c1,), r1),
        call_ensures(load_file_bytes, (c2,), r2),
    ensures
        r1@ == r2@,
{
}

/// Relates the two loaders: the text loaded from some contents encodes
/// back, character by character, to exactly the bytes loaded from those
/// same contents.
pub proof fn lemma_text_matches_bytes(bytes: Seq<u8>, text: Seq<char>)
    requires
        valid_utf8(bytes),
        text == decode_utf8(bytes),
    ensures
        encode_utf8(text) == bytes,
{
    decode_utf8_encode_utf8(bytes);
}

} // verus!

//! Copying text through the terminal.

use vstd::prelude::*;

use crate::text::{chars_of, joined};

verus! {

/// Bytes in standard base64 with padding, as the `base64` crate writes them.
pub uninterp spec fn base64_text(bytes: Seq<u8>) -> Seq<char>;

/// `base64::engine::general_purpose::STANDARD.encode`: bytes in standard base64 with padding.
#[verifier::external_body]
fn encode(bytes: &[u8]) -> (r: String)
    ensures
        r@ == base64_text(bytes@),
{
    base64::Engine::encode(&base64::engine::general_purpose::STANDARD, bytes)
}

/// The bytes that a text in standard base64 stands for, or in words why it stands for none.
pub uninterp spec fn base64_bytes(text: Seq<char>) -> Result<Seq<u8>, Seq<char>>;

/// `base64::engine::general_purpose::STANDARD.decode`: the bytes of a text in standard base64
/// with padding. The error is handed on in words.
#[verifier::external_body]
pub(crate) fn decode(text: &str) -> (r: Result<Vec<u8>, String>)
    ensures
        match r {
            Ok(bytes) => base64_bytes(text@) == Ok::<Seq<u8>, Seq<char>>(bytes@),
            Err(reason) => base64_bytes(text@) == Err::<Seq<u8>, Seq<char>>(reason@),
        },
{
    base64::Engine::decode(&base64::engine::general_purpose::STANDARD, text).map_err(
        |error| error.to_string(),
    )
}

/// The sequence that asks the terminal to copy what a base64 text stands for.
pub open spec fn copy_sequence(encoded: Seq<char>) -> Seq<char> {
    "\x1b]52;c;"@ + encoded + "\x1b\\"@
}

/// The sequence that asks the terminal to copy what a base64 text stands for.
pub fn copy_request(encoded: &str) -> (r: String)
    ensures
        r@ == copy_sequence(encoded@),
{
    let mut out = joined("\x1b]52;c;", encoded);
    out.append("\x1b\\");
    out
}

/// The sequence that asks the terminal to copy a text: its bytes in base64.
pub fn osc52_sequence(text: &str) -> (r: String)
    ensures
        r@ == copy_sequence(base64_text(vstd::utf8::encode_utf8(text@))),
{
    copy_request(encode(text.as_bytes()).as_str())
}

/// The number of characters that a copy of a text takes along.
pub fn copied_count(text: &str) -> (r: usize)
    ensures
        r == text@.len(),
{
    chars_of(text).len()
}

} // verus!

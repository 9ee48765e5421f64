//! Bytes as text on the wire: standard base64.

use base64::Engine;
use vstd::prelude::*;
use vstd::string::*;

use crate::error::{err_with, ErrorCode, ProtocolError};
use crate::text::cat2;

verus! {

/// The standard base64 text of some bytes.
pub uninterp spec fn base64_text(bytes: Seq<u8>) -> Seq<char>;

/// The bytes that a standard base64 text stands for, or why it stands for
/// none.
pub uninterp spec fn base64_bytes(text: Seq<char>) -> Result<Seq<u8>, Seq<char>>;

/// `text` carries some bytes in base64: it is their text, and reads back as
/// them.
pub open spec fn carries(text: Seq<char>, bytes: Seq<u8>) -> bool {
    &&& text == base64_text(bytes)
    &&& base64_bytes(text) == Ok::<Seq<u8>, Seq<char>>(bytes)
}

/// `base64::engine::general_purpose::STANDARD.encode`. The text is only
/// named; what is claimed of it is that decoding gives the bytes back.
#[verifier::external_body]
pub(crate) fn b64_encode(bytes: &[u8]) -> (text: String)
    ensures
        text@ == base64_text(bytes@),
        base64_bytes(text@) is Ok && base64_bytes(text@)->Ok_0 == bytes@,
{
    base64::engine::general_purpose::STANDARD.encode(bytes)
}

/// `base64::engine::general_purpose::STANDARD.decode`, with the error as the
/// text that it displays. Bytes and text are only named.
#[verifier::external_body]
pub(crate) fn b64_decode_raw(text: &str) -> (r: Result<Vec<u8>, String>)
    ensures
        match r {
            Ok(bytes) => base64_bytes(text@) matches Ok(b) && b == bytes@,
            Err(why) => base64_bytes(text@) matches Err(w) && w == why@,
        },
{
    base64::engine::general_purpose::STANDARD.decode(text).map_err(|e| e.to_string())
}

/// Decodes a base64 parameter.
pub fn b64_decode(text: &str) -> (r: Result<Vec<u8>, ProtocolError>)
    ensures
        match base64_bytes(text@) {
            Ok(bytes) => r matches Ok(b) && b@ == bytes,
            Err(why) => r matches Err(e) && e.says(
                ErrorCode::InvalidParams,
                "base64: "@ + why,
            ),
        },
{
    decoded_or_error(b64_decode_raw(text))
}

/// The answer to a parameter that was decoded, or could not be.
pub fn decoded_or_error(decoded: Result<Vec<u8>, String>) -> (r: Result<Vec<u8>, ProtocolError>)
    ensures
        match decoded {
            Ok(bytes) => r matches Ok(b) && b@ == bytes@,
            Err(why) => r matches Err(e) && e.says(ErrorCode::InvalidParams, "base64: "@ + why@),
        },
{
    match decoded {
        Ok(bytes) => Ok(bytes),
        Err(why) => {
            let msg = cat2("base64: ", why.as_str());
            Err(err_with(ErrorCode::InvalidParams, msg.as_str()))
        },
    }
}

} // verus!

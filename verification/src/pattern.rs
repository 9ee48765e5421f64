//! Regular expressions over bytes.

use vstd::prelude::*;
use vstd::string::*;

use crate::error::{err_with, ErrorCode, ProtocolError};
use crate::text::cat2;

verus! {

/// Why a pattern is no regular expression, if it is none.
pub uninterp spec fn regex_error(pattern: Seq<char>) -> Option<Seq<char>>;

/// Where the leftmost match of a pattern stands in some bytes.
pub uninterp spec fn regex_match(pattern: Seq<char>, hay: Seq<u8>) -> Option<(usize, usize)>;

/// `regex::bytes::Regex::new`, of which only the error is kept, as the text
/// that it displays. Which patterns are refused is only named.
#[verifier::external_body]
pub(crate) fn regex_compile_error(pattern: &str) -> (r: Option<String>)
    ensures
        match r {
            Some(why) => regex_error(pattern@) == Some(why@),
            None => regex_error(pattern@) is None,
        },
{
    regex::bytes::Regex::new(pattern).err().map(|e| e.to_string())
}

/// `regex::bytes::Regex::find` on the compiled pattern: the leftmost match as
/// byte offsets, which lie within the haystack in order. Where it is, is only
/// named. A pattern that does not compile matches nowhere.
#[verifier::external_body]
pub(crate) fn regex_find(pattern: &str, hay: &[u8]) -> (r: Option<(usize, usize)>)
    ensures
        r == regex_match(pattern@, hay@),
        r matches Some(m) ==> m.0 <= m.1 <= hay@.len(),
{
    let re = regex::bytes::Regex::new(pattern).ok()?;
    re.find(hay).map(|m| (m.start(), m.end()))
}

/// Refuses a pattern that is no regular expression.
pub fn check_regex(pattern: &str) -> (r: Result<(), ProtocolError>)
    ensures
        match regex_error(pattern@) {
            None => r is Ok,
            Some(why) => r matches Err(e) && e.says(ErrorCode::InvalidParams, "regex: "@ + why),
        },
{
    regex_ok_or_error(regex_compile_error(pattern))
}

/// The answer to a pattern that compiled, or was refused for a reason.
pub fn regex_ok_or_error(refused: Option<String>) -> (r: Result<(), ProtocolError>)
    ensures
        match refused {
            None => r is Ok,
            Some(why) => r matches Err(e) && e.says(ErrorCode::InvalidParams, "regex: "@ + why@),
        },
{
    match refused {
        None => Ok(()),
        Some(why) => {
            let msg = cat2("regex: ", why.as_str());
            Err(err_with(ErrorCode::InvalidParams, msg.as_str()))
        },
    }
}

} // verus!

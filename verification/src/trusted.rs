use vstd::prelude::*;
use vstd::utf8::encode_utf8;

verus! {

/// Whether a string parses as a well-formed URL, and the parser's message
/// when it does not.  The outcome depends on the characters alone.
pub uninterp spec fn url_parse_result(s: Seq<char>) -> Result<(), Seq<char>>;

/// Relies on `reqwest::Url::parse` (reqwest re-exports `url::Url`): checks
/// that a base URL is well-formed, keeping only the verdict and the parser's
/// message.
#[verifier::external_body]
pub(crate) fn parse_url_check(s: &String) -> (r: Result<(), String>)
    ensures
        match r {
            Result::Ok(_) => url_parse_result(s@) is Ok,
            Result::Err(m) => url_parse_result(s@) == Result::<(), Seq<char>>::Err(m@),
        },
{
    match reqwest::Url::parse(s.as_str()) {
        Ok(_) => Ok(()),
        Err(e) => Err(e.to_string()),
    }
}

/// Whether a string is a syntactically valid HTTP header name, and the
/// parser's message when it is not.  The outcome depends on the characters
/// alone.  Validity is a per-byte token-table check with length bounds;
/// the table is left behind this name.
pub uninterp spec fn header_name_result(s: Seq<char>) -> Result<(), Seq<char>>;

/// Relies on `hyper::header::HeaderName::from_bytes` (hyper re-exports the
/// `http` crate's header types): checks a configured header name.  An empty
/// name is rejected.
#[verifier::external_body]
pub(crate) fn check_header_name(s: &String) -> (r: Result<(), String>)
    ensures
        match r {
            Result::Ok(_) => header_name_result(s@) is Ok && s@.len() > 0,
            Result::Err(m) => header_name_result(s@) == Result::<(), Seq<char>>::Err(m@),
        },
{
    match hyper::header::HeaderName::from_bytes(s.as_bytes()) {
        Ok(_) => Ok(()),
        Err(e) => Err(e.to_string()),
    }
}

/// The parser's message when a header value is invalid.  The outcome
/// depends on the characters alone.
pub uninterp spec fn header_value_result(s: Seq<char>) -> Result<(), Seq<char>>;

/// A byte an HTTP header value may hold: visible bytes and the tab, no
/// delete.
pub open spec fn header_value_byte_ok(b: u8) -> bool {
    b == 9 || (b >= 32 && b != 127)
}

/// A string is a valid header value when every byte of its encoding is.
pub open spec fn header_value_ok(s: Seq<char>) -> bool {
    forall|i: int|
        0 <= i < encode_utf8(s).len() ==> header_value_byte_ok(#[trigger] encode_utf8(s)[i])
}

/// Relies on `hyper::header::HeaderValue::from_str`: checks a configured
/// header value.  The parser accepts exactly the strings every byte of
/// which is a valid value byte.
#[verifier::external_body]
pub(crate) fn check_header_value(s: &String) -> (r: Result<(), String>)
    ensures
        match r {
            Result::Ok(_) => header_value_result(s@) is Ok && header_value_ok(s@),
            Result::Err(m) => header_value_result(s@) == Result::<(), Seq<char>>::Err(m@)
                && !header_value_ok(s@),
        },
{
    match hyper::header::HeaderValue::from_str(s.as_str()) {
        Ok(_) => Ok(()),
        Err(e) => Err(e.to_string()),
    }
}

} // verus!

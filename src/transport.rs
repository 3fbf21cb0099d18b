use vstd::prelude::*;
use vstd::string::*;

use crate::error::Error;
use crate::request::Request;

verus! {

#[verifier::external_type_specification]
#[verifier::external_body]
pub struct ExMethod(reqwest::Method);

/// A token character of RFC 9110: the characters an HTTP method is made of.
pub open spec fn is_tchar(c: char) -> bool {
    ||| ('a' <= c && c <= 'z')
    ||| ('A' <= c && c <= 'Z')
    ||| ('0' <= c && c <= '9')
    ||| c == '!' || c == '#' || c == '$' || c == '%' || c == '&' || c == '\'' || c == '*'
    ||| c == '+' || c == '-' || c == '.' || c == '^' || c == '_' || c == '`' || c == '|'
    ||| c == '~'
}

/// A valid HTTP method: one or more token characters.
pub open spec fn is_method_token(s: Seq<char>) -> bool {
    s.len() > 0 && forall|i: int| 0 <= i < s.len() ==> is_tchar(#[trigger] s[i])
}

/// Relies on `FromStr` for `reqwest::Method` (the `http` crate's `Method::from_bytes`):
/// it accepts exactly the non-empty strings of token characters.
#[verifier::external_body]
fn parse_method(s: &str) -> (r: Option<reqwest::Method>)
    ensures
        r is Some <==> is_method_token(s@),
{
    <reqwest::Method as std::str::FromStr>::from_str(s).ok()
}

/// The message for a method that HTTP does not accept.
pub open spec fn invalid_method_text(method: Seq<char>) -> Seq<char> {
    "Invalid HTTP method: "@ + method
}

/// The HTTP method that `request` is sent with; a method that is no token is a
/// transport error.
pub fn http_method(request: &Request) -> (r: Result<reqwest::Method, Error>)
    ensures
        r is Ok <==> is_method_token(request.method@),
        r matches Err(e) ==> e matches Error::Transport(m) && m@ == invalid_method_text(
            request.method@,
        ),
{
    match parse_method(request.method.as_str()) {
        Some(m) => Ok(m),
        None => {
            let mut m = String::from_str("Invalid HTTP method: ");
            m.append(request.method.as_str());
            Err(Error::Transport(m))
        },
    }
}

} // verus!

//! Percent-encoding of the tokens that travel between the browser and its
//! client. The coding itself is the `urlencoding` crate's; this module gives
//! its results a name and turns its failure into the library's own error.

use crate::error::PathError;
use std::string::FromUtf8Error;
use vstd::prelude::*;

verus! {

/// The error of `String::from_utf8`, which `urlencoding::decode` hands on.
#[verifier::external_type_specification]
#[verifier::external_body]
pub struct ExFromUtf8Error(FromUtf8Error);

/// The text that `urlencoding::decode` makes of `token`, or `None` where it
/// reports an error.
pub uninterp spec fn percent_decoded(token: Seq<char>) -> Option<Seq<char>>;

/// The text that `urlencoding::encode` makes of `text`.
pub uninterp spec fn percent_encoded(text: Seq<char>) -> Seq<char>;

/// Calls `urlencoding::decode`. The result is named by `percent_decoded`.
/// One fact is taken from the crate's source: a token without any `%` is
/// handed back as it came.
#[verifier::external_body]
fn decode_raw(token: &str) -> (r: Result<String, FromUtf8Error>)
    ensures
        r is Ok ==> percent_decoded(token@) == Some(r->Ok_0@),
        r is Err ==> percent_decoded(token@) is None,
        !token@.contains('%') ==> r is Ok && r->Ok_0@ == token@,
{
    match urlencoding::decode(token) {
        Ok(text) => Ok(text.into_owned()),
        Err(e) => Err(e),
    }
}

/// Calls `urlencoding::encode`. The result is named by `percent_encoded`.
#[verifier::external_body]
fn encode_raw(text: &str) -> (r: String)
    ensures
        r@ == percent_encoded(text@),
{
    urlencoding::encode(text).into_owned()
}

/// What `decode` returns, given what the decoder made of the token.
pub open spec fn decode_spec(decoded: Option<Seq<char>>) -> Result<Seq<char>, PathError> {
    match decoded {
        Some(text) => Ok(text),
        None => Err(PathError::InvalidEncoding),
    }
}

/// Turns the decoder's answer into the library's: the text, or
/// `InvalidEncoding`.
pub fn decoded_or_error(answer: Result<String, FromUtf8Error>) -> (r: Result<String, PathError>)
    ensures
        match answer {
            Ok(text) => r == Ok::<String, PathError>(text),
            Err(_) => r == Err::<String, PathError>(PathError::InvalidEncoding),
        },
{
    match answer {
        Ok(text) => Ok(text),
        Err(_) => Err(PathError::InvalidEncoding),
    }
}

/// Percent-decodes a token. Fails with `InvalidEncoding` exactly when the
/// decoder reports an error.
pub fn decode(token: &str) -> (r: Result<String, PathError>)
    ensures
        match r {
            Ok(text) => decode_spec(percent_decoded(token@)) == Ok::<Seq<char>, PathError>(text@),
            Err(e) => decode_spec(percent_decoded(token@)) == Err::<Seq<char>, PathError>(e),
        },
        !token@.contains('%') ==> r is Ok && percent_decoded(token@) == Some(token@),
{
    decoded_or_error(decode_raw(token))
}

/// Percent-encodes a text.
pub fn encode(text: &str) -> (r: String)
    ensures
        r@ == percent_encoded(text@),
{
    encode_raw(text)
}

} // verus!

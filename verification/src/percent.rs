//! Names as a record writes them: percent-encoded UTF-8.

use crate::error::{Attr, ConvertError, Tag};
use std::string::FromUtf8Error;
use vstd::prelude::*;

verus! {

/// The error of `String::from_utf8`, carried through from the decoder.
#[verifier::external_type_specification]
#[verifier::external_body]
pub struct ExFromUtf8Error(FromUtf8Error);

/// The text that a percent-encoded text stands for, where the bytes it
/// stands for are UTF-8.
pub uninterp spec fn percent_decoded(text: Seq<char>) -> Option<Seq<char>>;

/// `urlencoding::decode`: the percent-decoded text, or the failure to read
/// the decoded bytes as UTF-8. The result depends on the text alone.
#[verifier::external_body]
fn percent_decode(text: &str) -> (r: Result<String, FromUtf8Error>)
    ensures
        match r {
            Ok(decoded) => percent_decoded(text@) == Some(decoded@),
            Err(_) => percent_decoded(text@) is None,
        },
{
    match urlencoding::decode(text) {
        Ok(decoded) => Ok(decoded.into_owned()),
        Err(e) => Err(e),
    }
}

/// The name that decoding gave, or the failure of the attribute it was
/// written in.
pub open spec fn name_of_decoded(decoded: Option<Seq<char>>, attribute: Attr) -> Result<
    Seq<char>,
    ConvertError,
> {
    match decoded {
        Some(name) => Ok(name),
        None => Err(ConvertError::MalformedValue { tag: Tag::Un, attribute }),
    }
}

/// The text of a decoding that succeeded.
pub open spec fn decoding_view(outcome: Result<String, FromUtf8Error>) -> Option<Seq<char>> {
    match outcome {
        Ok(name) => Some(name@),
        Err(_) => None,
    }
}

/// The text, or the failure, of a name.
pub open spec fn name_view(r: Result<String, ConvertError>) -> Result<Seq<char>, ConvertError> {
    match r {
        Ok(name) => Ok(name@),
        Err(e) => Err(e),
    }
}

/// Takes the outcome of decoding the name in `attribute`: the name, or the
/// failure of that attribute.
pub fn decoded_name(outcome: Result<String, FromUtf8Error>, attribute: Attr) -> (r: Result<
    String,
    ConvertError,
>)
    ensures
        name_view(r) == name_of_decoded(decoding_view(outcome), attribute),
{
    match outcome {
        Ok(name) => Ok(name),
        Err(_) => Err(ConvertError::MalformedValue { tag: Tag::Un, attribute }),
    }
}

/// Decodes the name written in `attribute`.
pub fn decode_name(text: &str, attribute: Attr) -> (r: Result<String, ConvertError>)
    ensures
        name_view(r) == name_of_decoded(percent_decoded(text@), attribute),
{
    decoded_name(percent_decode(text), attribute)
}

} // verus!

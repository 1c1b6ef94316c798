//! Texts as they arrive: bytes that may be missing and may not be UTF-8.

use crate::error::{LinkError, TextField};
use vstd::prelude::*;
use vstd::string::StringSliceAdditionalSpecFns;
use vstd::utf8::valid_utf8;

verus! {

/// The error type of `core::str::from_utf8`.
#[verifier::external_type_specification]
#[verifier::external_body]
pub struct ExUtf8Error(core::str::Utf8Error);

/// `core::str::from_utf8` succeeds exactly on the byte sequences that are
/// valid UTF-8, and the string it gives then has those bytes.
pub assume_specification[ core::str::from_utf8 ](v: &[u8]) -> (text: Result<
    &str,
    core::str::Utf8Error,
>)
    ensures
        text is Ok <==> valid_utf8(v@),
        text matches Ok(s) ==> s.spec_bytes() == v@,
;

/// The bytes of a text that may be missing.
pub open spec fn bytes_of(text: Option<&[u8]>) -> Option<Seq<u8>> {
    match text {
        Some(bytes) => Some(bytes@),
        None => None,
    }
}

/// The bytes of the text for `field`, where it is given and valid UTF-8.
pub open spec fn text_of(text: Option<Seq<u8>>, field: TextField) -> Result<Seq<u8>, LinkError> {
    match text {
        None => Err(LinkError::MissingText(field)),
        Some(bytes) => if valid_utf8(bytes) {
            Ok(bytes)
        } else {
            Err(LinkError::InvalidText(field))
        },
    }
}

/// Checks that the text for `field` is given and is valid UTF-8, and hands
/// it back as a string.
pub fn validate_text<'a>(text: Option<&'a [u8]>, field: TextField) -> (checked: Result<
    &'a str,
    LinkError,
>)
    ensures
        match checked {
            Ok(s) => text_of(bytes_of(text), field) == Ok::<Seq<u8>, LinkError>(s.spec_bytes()),
            Err(e) => text_of(bytes_of(text), field) == Err::<Seq<u8>, LinkError>(e),
        },
{
    match text {
        None => Err(LinkError::MissingText(field)),
        Some(bytes) => match core::str::from_utf8(bytes) {
            Ok(s) => Ok(s),
            Err(_) => Err(LinkError::InvalidText(field)),
        },
    }
}

} // verus!

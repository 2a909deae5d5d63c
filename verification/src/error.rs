use postcard::Error as PostcardError;
use std::io::Error as IoError;
use vstd::prelude::*;

verus! {

/// The external codec's error type, declared so that library signatures can
/// carry it through unchanged.
#[verifier::external_type_specification]
#[verifier::external_body]
pub struct ExPostcardError(PostcardError);

/// std's I/O error type, declared so that library signatures can carry it
/// through unchanged.
#[verifier::external_type_specification]
#[verifier::external_body]
pub struct ExIoError(IoError);

/// An error of the framing layer: either the stream fell short of a whole
/// frame, or the external codec rejected a value or a payload. Each variant
/// carries the underlying cause for diagnostics.
#[derive(Debug)]
pub enum Error {
    IO(IoError),
    Postcard(PostcardError),
}

impl From<IoError> for Error {
    fn from(value: IoError) -> (r: Self)
        ensures
            r == Error::IO(value),
    {
        Error::IO(value)
    }
}

impl vstd::std_specs::convert::FromSpecImpl<IoError> for Error {
    open spec fn obeys_from_spec() -> bool {
        true
    }

    open spec fn from_spec(v: IoError) -> Self {
        Error::IO(v)
    }
}

impl From<PostcardError> for Error {
    fn from(value: PostcardError) -> (r: Self)
        ensures
            r == Error::Postcard(value),
    {
        Error::Postcard(value)
    }
}

impl vstd::std_specs::convert::FromSpecImpl<PostcardError> for Error {
    open spec fn obeys_from_spec() -> bool {
        true
    }

    open spec fn from_spec(v: PostcardError) -> Self {
        Error::Postcard(v)
    }
}

/// Relies on std::io::Error::new with ErrorKind::UnexpectedEof: builds the
/// error reported when the stream ends before a whole header or payload
/// could be read.
#[verifier::external_body]
pub(crate) fn eof_error() -> IoError {
    IoError::new(std::io::ErrorKind::UnexpectedEof, "stream ended inside a frame")
}

} // verus!

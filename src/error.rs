//! Errors surfaced by the library.
use vstd::prelude::*;

verus! {

/// Errors of the Dockerfile and registry layers.
#[derive(Debug, Clone, PartialEq, Eq)]
pub enum Error {
    /// A write was requested but the Dockerfile has no recorded path.
    MissingPath,
    /// The registry could not be reached or answered with a failure for this
    /// repository.
    ImageNotFound(String),
    /// The registry of this repository has no tag listing support yet.
    NotImplemented(String),
    Parse(ParseError),
}

/// Errors found while parsing user input or registry answers.
#[derive(Debug, Clone, PartialEq, Eq)]
pub enum ParseError {
    /// The image reference is blank.
    EmptyImage,
    /// The Dockerfile has no content at all.
    EmptyFile,
    /// The first page of a Docker Hub tag listing could not be read.
    InvalidDockerhubResponse,
}

/// The description of each error.
pub open spec fn error_message(e: Error) -> Seq<char> {
    match e {
        Error::MissingPath => "No path was set for the given dockerfile."@,
        Error::ImageNotFound(_) => "Could not find the image in its registry."@,
        Error::NotImplemented(_) => "Tag listing is not implemented for this registry."@,
        Error::Parse(ParseError::EmptyImage) => "Image name is empty."@,
        Error::Parse(ParseError::EmptyFile) => "The given file is empty."@,
        Error::Parse(ParseError::InvalidDockerhubResponse) => "Could not parse dockerhub response."@,
    }
}

impl Error {
    /// A human readable description of the error.
    pub fn message(&self) -> (r: String)
        ensures
            r@ == error_message(*self),
    {
        match self {
            Error::MissingPath => "No path was set for the given dockerfile.".to_string(),
            Error::ImageNotFound(_) => "Could not find the image in its registry.".to_string(),
            Error::NotImplemented(_) => "Tag listing is not implemented for this registry.".to_string(),
            Error::Parse(ParseError::EmptyImage) => "Image name is empty.".to_string(),
            Error::Parse(ParseError::EmptyFile) => "The given file is empty.".to_string(),
            Error::Parse(ParseError::InvalidDockerhubResponse) => "Could not parse dockerhub response.".to_string(),
        }
    }
}

} // verus!

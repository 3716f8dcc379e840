//! The error taxonomy and the path-expectation check.

use vstd::prelude::*;
use vstd::string::*;
use crate::tree::Span;

verus! {

/// A positional parse error: the offending span and a message.
#[derive(Clone, PartialEq, Eq, Debug)]
pub struct ParseError {
    pub span: Span,
    pub message: String,
}

/// Mathematical model of a [`ParseError`].
pub struct SpecParseError {
    pub span: Span,
    pub message: Seq<char>,
}

impl View for ParseError {
    type V = SpecParseError;

    open spec fn view(&self) -> SpecParseError {
        SpecParseError { span: self.span, message: self.message@ }
    }
}

/// Everything that can go wrong around a document, in one taxonomy.
/// `Parser` is the core's own surface; the other variants carry, as plain
/// message text, errors raised by the collaborators that read files,
/// decode bytes and serialize results.
#[derive(Clone, PartialEq, Eq, Debug)]
pub enum Error {
    IO(String),
    FromUtf8(String),
    Parser(ParseError),
    Serde(String),
}

impl Error {
    /// The message text this error carries.
    pub fn message(&self) -> (r: String)
        ensures
            self matches Error::IO(m) ==> r@ == m@,
            self matches Error::FromUtf8(m) ==> r@ == m@,
            self matches Error::Serde(m) ==> r@ == m@,
            self matches Error::Parser(pe) ==> r@ == pe.message@,
    {
        match self {
            Error::IO(m) => m.clone(),
            Error::FromUtf8(m) => m.clone(),
            Error::Parser(pe) => pe.message.clone(),
            Error::Serde(m) => m.clone(),
        }
    }
}

/// What a caller expects a filesystem path to be.
#[derive(Clone, Copy, PartialEq, Eq, Structural, Debug)]
pub enum ExpectedPath {
    Dir,
    File,
}

impl ExpectedPath {
    /// Whether a path with the queried classification meets this
    /// expectation.
    pub open spec fn spec_matches(self, is_dir: bool, is_file: bool) -> bool {
        match self {
            ExpectedPath::Dir => is_dir,
            ExpectedPath::File => is_file,
        }
    }

    /// The word used for this expectation in messages.
    pub fn describe(&self) -> (r: String)
        ensures
            self is Dir ==> r@ == "directory"@,
            self is File ==> r@ == "file"@,
    {
        match self {
            ExpectedPath::Dir => String::from_str("directory"),
            ExpectedPath::File => String::from_str("file"),
        }
    }

    /// Decides whether a path meets this expectation. The caller queries
    /// the filesystem and hands the three answers in: whether the path
    /// exists, whether it is a directory, whether it is a regular file.
    pub fn check_path(self, exists: bool, is_dir: bool, is_file: bool) -> (r: Result<(), Error>)
        ensures
            r is Ok <==> exists && self.spec_matches(is_dir, is_file),
            !exists ==> (r matches Err(e) && e matches Error::IO(m) && m@
                == "Provided path does not exist"@),
            exists && !self.spec_matches(is_dir, is_file) && self is Dir ==> (r matches Err(e)
                && e matches Error::IO(m) && m@
                == "Provided path exists, but does not lead to a directory"@),
            exists && !self.spec_matches(is_dir, is_file) && self is File ==> (r matches Err(e)
                && e matches Error::IO(m) && m@
                == "Provided path exists, but does not lead to a file"@),
    {
        let matches_expected = match self {
            ExpectedPath::Dir => is_dir,
            ExpectedPath::File => is_file,
        };
        if !exists {
            Err(Error::IO(String::from_str("Provided path does not exist")))
        } else if !matches_expected {
            match self {
                ExpectedPath::Dir => Err(
                    Error::IO(
                        String::from_str("Provided path exists, but does not lead to a directory"),
                    ),
                ),
                ExpectedPath::File => Err(
                    Error::IO(
                        String::from_str("Provided path exists, but does not lead to a file"),
                    ),
                ),
            }
        } else {
            Ok(())
        }
    }
}

} // verus!

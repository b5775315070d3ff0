//! What can go wrong while a project is packaged or an archive is unpacked.

use vstd::prelude::*;
use vstd::std_specs::convert::FromSpecImpl;

verus! {

/// `std::io::Error`, carried through without looking inside.
#[verifier::external_type_specification]
#[verifier::external_body]
pub struct ExIoError(std::io::Error);

/// `jwalk::Error`, carried through without looking inside.
#[verifier::external_type_specification]
#[verifier::external_body]
pub struct ExWalkError(jwalk::Error);

/// `regex::Error`, carried through without looking inside.
#[verifier::external_type_specification]
#[verifier::external_body]
pub struct ExPatternError(regex::Error);

/// A failure of the file handler.
#[derive(Debug)]
pub enum FileHandlerError {
    /// Reading or writing a file failed.
    Io(std::io::Error),
    /// Walking the project tree failed.
    Jwalk(jwalk::Error),
    /// The exclusion patterns do not form a pattern set.
    Regex(regex::Error),
    /// A path that has to be stored under its final component has none.
    Unnamed(String),
}

impl From<std::io::Error> for FileHandlerError {
    fn from(err: std::io::Error) -> (r: Self) {
        FileHandlerError::Io(err)
    }
}

impl FromSpecImpl<std::io::Error> for FileHandlerError {
    open spec fn obeys_from_spec() -> bool {
        true
    }

    open spec fn from_spec(err: std::io::Error) -> Self {
        FileHandlerError::Io(err)
    }
}

impl From<jwalk::Error> for FileHandlerError {
    fn from(err: jwalk::Error) -> (r: Self) {
        FileHandlerError::Jwalk(err)
    }
}

impl FromSpecImpl<jwalk::Error> for FileHandlerError {
    open spec fn obeys_from_spec() -> bool {
        true
    }

    open spec fn from_spec(err: jwalk::Error) -> Self {
        FileHandlerError::Jwalk(err)
    }
}

impl From<regex::Error> for FileHandlerError {
    fn from(err: regex::Error) -> (r: Self) {
        FileHandlerError::Regex(err)
    }
}

impl FromSpecImpl<regex::Error> for FileHandlerError {
    open spec fn obeys_from_spec() -> bool {
        true
    }

    open spec fn from_spec(err: regex::Error) -> Self {
        FileHandlerError::Regex(err)
    }
}

impl FileHandlerError {
    /// The text that introduces a failure of this kind in a message.
    pub open spec fn heading(self) -> Seq<char> {
        match self {
            FileHandlerError::Unnamed(_) => "No file name in path: "@,
            _ => "IO Error: "@,
        }
    }

    /// Whether `detail` is what follows the heading in a description of
    /// this failure: the path for a path without a name, and otherwise the
    /// text that the error inside displays.
    pub open spec fn has_detail(self, detail: String) -> bool {
        match self {
            FileHandlerError::Io(err) => vstd::string::to_string_from_display_ensures::<
                std::io::Error,
            >(&err, detail),
            FileHandlerError::Jwalk(err) => vstd::string::to_string_from_display_ensures::<
                jwalk::Error,
            >(&err, detail),
            FileHandlerError::Regex(err) => vstd::string::to_string_from_display_ensures::<
                regex::Error,
            >(&err, detail),
            FileHandlerError::Unnamed(path) => detail == path,
        }
    }

    /// A line of text that describes the failure: the heading of its kind,
    /// and then its detail.
    pub fn description(&self) -> (r: String)
        ensures
            exists|detail: String| #[trigger] self.has_detail(detail) && r@ == self.heading() + detail@,
    {
        let (mut r, detail) = match self {
            FileHandlerError::Io(err) => (String::from_str("IO Error: "), err.to_string()),
            FileHandlerError::Jwalk(err) => (String::from_str("IO Error: "), err.to_string()),
            FileHandlerError::Regex(err) => (String::from_str("IO Error: "), err.to_string()),
            FileHandlerError::Unnamed(path) => (
                String::from_str("No file name in path: "),
                path.clone(),
            ),
        };
        r.append(detail.as_str());
        assert(self.has_detail(detail));
        r
    }
}

} // verus!

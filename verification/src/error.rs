use vstd::prelude::*;
use vstd::string::StringExecFns;

verus! {

/// What a workspace operation reports when it cannot complete.
#[derive(Debug)]
pub enum Error {
    /// A file operation failed; the text is the underlying cause.
    Io(String),
    /// A file name was refused because it could leave the workspace; the text is that name.
    InvalidPath(String),
    /// Any other failure, described by its text.
    Generic(String),
}

/// An [`Error`] with its texts as character sequences.
pub enum ErrorView {
    Io(Seq<char>),
    InvalidPath(Seq<char>),
    Generic(Seq<char>),
}

impl View for Error {
    type V = ErrorView;

    open spec fn view(&self) -> ErrorView {
        match self {
            Error::Io(cause) => ErrorView::Io(cause@),
            Error::InvalidPath(name) => ErrorView::InvalidPath(name@),
            Error::Generic(text) => ErrorView::Generic(text@),
        }
    }
}

impl ErrorView {
    /// The text shown to a caller for this error.
    pub open spec fn message(self) -> Seq<char> {
        match self {
            ErrorView::Io(cause) => cause,
            ErrorView::InvalidPath(name) => "Path traversal detected or invalid path: "@ + name,
            ErrorView::Generic(text) => text,
        }
    }
}

impl Error {

    /// Renders the error as the text shown to a caller.
    pub fn message(&self) -> (text: String)
        ensures
            text@ == self@.message(),
    {
        match self {
            Error::Io(cause) => cause.clone(),
            Error::InvalidPath(name) => {
                let mut text = String::from_str("Path traversal detected or invalid path: ");
                text.append(name.as_str());
                text
            },
            Error::Generic(text) => text.clone(),
        }
    }
}

} // verus!

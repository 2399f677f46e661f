//! Errors that the commands report.

use vstd::prelude::*;
use vstd::string::*;

verus! {

/// An error with a code that the interface can act on.
#[derive(Debug)]
pub struct CommandError {
    pub code: String,
    pub message: String,
}

/// The content of a [`CommandError`].
pub struct CommandErrorView {
    pub code: Seq<char>,
    pub message: Seq<char>,
}

impl View for CommandError {
    type V = CommandErrorView;

    open spec fn view(&self) -> CommandErrorView {
        CommandErrorView { code: self.code@, message: self.message@ }
    }
}

/// The error with this code and this message.
pub open spec fn command_error(code: Seq<char>, message: Seq<char>) -> CommandErrorView {
    CommandErrorView { code, message }
}

impl CommandError {
    /// Makes an error.
    pub fn new(code: &str, message: &str) -> (r: CommandError)
        ensures
            r@ == command_error(code@, message@),
    {
        CommandError { code: code.to_owned(), message: message.to_owned() }
    }
}

/// An error of the application layer.
#[derive(Debug)]
pub enum ApplicationError {
    /// The request cannot be carried out as it stands.
    Validation(String),
    /// A transcription engine could not be used.
    SpeechToText(String),
    /// The text enhancer failed.
    PostProcessing(String),
    /// The store failed.
    Persistence(String),
    /// The user cancelled the operation.
    Cancelled,
}

/// The content of an [`ApplicationError`].
pub enum ApplicationErrorView {
    Validation(Seq<char>),
    SpeechToText(Seq<char>),
    PostProcessing(Seq<char>),
    Persistence(Seq<char>),
    Cancelled,
}

impl View for ApplicationError {
    type V = ApplicationErrorView;

    open spec fn view(&self) -> ApplicationErrorView {
        match self {
            ApplicationError::Validation(m) => ApplicationErrorView::Validation(m@),
            ApplicationError::SpeechToText(m) => ApplicationErrorView::SpeechToText(m@),
            ApplicationError::PostProcessing(m) => ApplicationErrorView::PostProcessing(m@),
            ApplicationError::Persistence(m) => ApplicationErrorView::Persistence(m@),
            ApplicationError::Cancelled => ApplicationErrorView::Cancelled,
        }
    }
}

} // verus!

//! What can end a compilation run early.

use vstd::prelude::*;
use crate::collision::{collision_message, CollisionModel, OutputCollision};
use vstd::string::StringExecFns;
use crate::path::{joined, SassPath};

verus! {

/// Why a compilation run failed. Every failure ends the run.
#[derive(Debug, PartialEq, Eq)]
pub enum SassError {
    /// The compiler could not compile a stylesheet.
    Compiler {
        /// The stylesheet.
        source: SassPath,
        /// What the compiler said.
        message: String,
    },
    /// A directory or a file could not be created or written.
    Io {
        /// The directory or file.
        path: SassPath,
        /// What the system said.
        cause: String,
    },
    /// Two stylesheets were written to the same file.
    OutputCollision { collision: OutputCollision },
}

/// The content of a [`SassError`].
pub enum SassErrorModel {
    Compiler { source: Seq<Seq<char>>, message: Seq<char> },
    Io { path: Seq<Seq<char>>, cause: Seq<char> },
    OutputCollision { collision: CollisionModel },
}

impl View for SassError {
    type V = SassErrorModel;

    open spec fn view(&self) -> SassErrorModel {
        match self {
            SassError::Compiler { source, message } => SassErrorModel::Compiler {
                source: source@,
                message: message@,
            },
            SassError::Io { path, cause } => SassErrorModel::Io { path: path@, cause: cause@ },
            SassError::OutputCollision { collision } => SassErrorModel::OutputCollision {
                collision: collision@,
            },
        }
    }
}

/// The text that describes an error. For a stylesheet that could not be
/// compiled it names the stylesheet and then gives what the compiler said.
/// For a directory or a file that could not be created it names that and then
/// gives what the system said. For a collision it is the sentence that names
/// the two stylesheets and the file they share.
pub open spec fn error_message(error: SassErrorModel) -> Seq<char> {
    match error {
        SassErrorModel::Compiler { source, message } => "Failed to compile \""@ + joined(source)
            + "\": "@ + message,
        SassErrorModel::Io { path, cause } => "Failed to create \""@ + joined(path) + "\": "@
            + cause,
        SassErrorModel::OutputCollision { collision } => collision_message(collision),
    }
}

impl SassError {
    /// The text that describes the error.
    pub fn message(&self) -> (text: String)
        ensures
            text@ == error_message(self@),
    {
        match self {
            SassError::Compiler { source, message } => {
                let mut text = String::from_str("Failed to compile \"");
                text.append(source.display().as_str());
                text.append("\": ");
                text.append(message.as_str());
                text
            },
            SassError::Io { path, cause } => {
                let mut text = String::from_str("Failed to create \"");
                text.append(path.display().as_str());
                text.append("\": ");
                text.append(cause.as_str());
                text
            },
            SassError::OutputCollision { collision } => collision.message(),
        }
    }
}

} // verus!

//! The failures that the library reports.

use vstd::prelude::*;
use vstd::string::*;

verus! {

/// Why a log could not be decoded or explained.
#[derive(Debug, Clone, PartialEq, Eq)]
pub enum LogError {
    /// The first field of a line is not a whole number of seconds.
    InvalidTimestamp,
    /// A line has fewer than seven fields.
    MissingFields,
    /// The log holds no text at all.
    NoLogs,
    /// The log holds text, but its latest batch holds no error.
    NothingToExplain,
    /// The number of loaded sources differs from the number of referenced files.
    SourceCountMismatch,
    /// The source file at `path`, which a record refers to, could not be
    /// read.
    SourceUnreadable { path: String },
}

impl LogError {
    /// A description for the user.
    pub fn message(&self) -> (text: String)
        ensures
            text@ == (match *self {
                LogError::InvalidTimestamp => "Expected i64-compatible string"@,
                LogError::MissingFields => "Expected seven fields separated by `||`"@,
                LogError::NoLogs => "There's currently no logs that can be used with `cargo shuttle explain`. Once you have accumulated some errors from using the CLI, you'll be able to send errors from your last command invocation using `cargo shuttle explain`."@,
                LogError::NothingToExplain => "There don't seem to be any errors to send."@,
                LogError::SourceCountMismatch => "The loaded sources do not match the referenced files"@,
                LogError::SourceUnreadable { path } => "Could not read the source file `"@ + path@
                    + "`"@,
            }),
    {
        match self {
            LogError::InvalidTimestamp => String::from_str("Expected i64-compatible string"),
            LogError::MissingFields => String::from_str("Expected seven fields separated by `||`"),
            LogError::NoLogs => String::from_str(
                "There's currently no logs that can be used with `cargo shuttle explain`. Once you have accumulated some errors from using the CLI, you'll be able to send errors from your last command invocation using `cargo shuttle explain`.",
            ),
            LogError::NothingToExplain => String::from_str(
                "There don't seem to be any errors to send.",
            ),
            LogError::SourceCountMismatch => String::from_str(
                "The loaded sources do not match the referenced files",
            ),
            LogError::SourceUnreadable { path } => {
                let mut text = String::from_str("Could not read the source file `");
                text.append(path.as_str());
                text.append("`");
                text
            },
        }
    }
}

} // verus!

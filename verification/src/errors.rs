use vstd::prelude::*;

use vstd::string::StringExecFns;

verus! {

/// Every failure the engine can report. All of them are recovered at the
/// session boundary and turned into an outbound error message; none
/// corrupts existing game state.
#[derive(Debug, Clone, PartialEq, Eq)]
pub enum AppError {
    /// A pattern line held a character that is neither glyph.
    ParseGrid(String),
    /// A coordinate pair could not be read.
    ParsePoint(String),
    /// A configuration could not be built into a game.
    Config(String),
    /// The command keyword is not part of the protocol.
    UnknownCommand(String),
    /// The inbound message was empty.
    EmptyMessage,
}

impl AppError {
    /// The text of this error, as reported to the outside.
    pub open spec fn describe_spec(self) -> Seq<char> {
        match self {
            AppError::ParseGrid(s) => "failed to parse grid: "@ + s@,
            AppError::ParsePoint(s) => "failed to parse Point: "@ + s@,
            AppError::Config(s) => "invalid game configuration: "@ + s@,
            AppError::UnknownCommand(s) => "unrecognized command: "@ + s@,
            AppError::EmptyMessage => "empty message received"@,
        }
    }

    pub fn describe(&self) -> (r: String)
        ensures
            r@ == self.describe_spec(),
    {
        match self {
            AppError::ParseGrid(s) => String::from_str("failed to parse grid: ").concat(
                s.as_str(),
            ),
            AppError::ParsePoint(s) => String::from_str("failed to parse Point: ").concat(
                s.as_str(),
            ),
            AppError::Config(s) => String::from_str("invalid game configuration: ").concat(
                s.as_str(),
            ),
            AppError::UnknownCommand(s) => String::from_str("unrecognized command: ").concat(
                s.as_str(),
            ),
            AppError::EmptyMessage => String::from_str("empty message received"),
        }
    }
}

} // verus!

//! The ways in which a log call can be rejected.

use vstd::prelude::*;
use vstd::string::StringExecFns;

verus! {

/// Why a log call was rejected. Nothing is built from a call that is rejected.
#[derive(Clone, Copy, PartialEq, Eq, Structural, Debug)]
pub enum LogError {
    /// The call does not start with a string literal.
    MissingMessage,
    /// Something other than a comma follows the message.
    UnexpectedAfterMessage,
    /// The comma after the message is not followed by a group of entries.
    MissingEntries,
    /// Tokens follow the group of entries.
    TrailingTokens,
    /// An entry starts with something other than a string literal or an identifier.
    InvalidKey,
    /// The key of an entry is not followed by `:` or `=`.
    ExpectedSeparator,
    /// A type annotation is not closed by `=`.
    ExpectedAssign,
    /// A type annotation spells none of the supported types.
    UnrecognisedType,
    /// Nothing follows the `=` of an entry.
    MissingValue,
    /// An array entry is annotated with an optional type.
    OptionalArray,
}

impl LogError {
    /// The text of the diagnostic.
    pub open spec fn text(self) -> Seq<char> {
        match self {
            LogError::MissingMessage => "log macros must have message"@,
            LogError::UnexpectedAfterMessage => ", is only valid tt following log message"@,
            LogError::MissingEntries => "expected log entries {} following comma"@,
            LogError::TrailingTokens => "log macros cannot have tokens following entries {}"@,
            LogError::InvalidKey => "invalid tt - expected ident or literal for entry key"@,
            LogError::ExpectedSeparator => "expected : or = following entry key"@,
            LogError::ExpectedAssign => "expected = tt following type declaration"@,
            LogError::UnrecognisedType => "unrecognised type for entry value"@,
            LogError::MissingValue => "expected value following = in entry"@,
            LogError::OptionalArray => "optional values are not permitted in arrays"@,
        }
    }

    /// The diagnostic to show to whoever wrote the call.
    pub fn message(&self) -> (res: String)
        ensures
            res@ == self.text(),
    {
        match self {
            LogError::MissingMessage => String::from_str("log macros must have message"),
            LogError::UnexpectedAfterMessage => String::from_str(
                ", is only valid tt following log message",
            ),
            LogError::MissingEntries => String::from_str("expected log entries {} following comma"),
            LogError::TrailingTokens => String::from_str(
                "log macros cannot have tokens following entries {}",
            ),
            LogError::InvalidKey => String::from_str(
                "invalid tt - expected ident or literal for entry key",
            ),
            LogError::ExpectedSeparator => String::from_str("expected : or = following entry key"),
            LogError::ExpectedAssign => String::from_str(
                "expected = tt following type declaration",
            ),
            LogError::UnrecognisedType => String::from_str("unrecognised type for entry value"),
            LogError::MissingValue => String::from_str("expected value following = in entry"),
            LogError::OptionalArray => String::from_str(
                "optional values are not permitted in arrays",
            ),
        }
    }
}

} // verus!

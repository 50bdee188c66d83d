//! What is reported when no configuration can be made, and when a mutation
//! cannot be applied.

use crate::kind::MutationKind;
use crate::kind::OptionName;
use crate::text::decimal;
use crate::text::write_decimal;
use vstd::prelude::*;
use vstd::string::StringExecFns;

verus! {

/// Why no configuration could be made of an option tree.
#[derive(Debug, PartialEq, Eq)]
pub enum ConfigError {
    /// The text is no TOML document.
    Unparsable,
    /// A combination asks for a mutation that does not exist.
    UnknownMutation { name: String },
    /// An option that every run needs is absent.
    MissingGlobalOption { option: OptionName },
    /// A mutation that is asked for lacks a parameter of its own.
    MissingRequiredParameter { kind: MutationKind, parameter: OptionName },
    /// A declared value is not one number or two.
    InvalidRangeShape,
    /// A declared number is negative, or too large to count bytes with.
    ValueOutOfRange,
}

/// A `ConfigError` as contracts speak of it: a name is its characters.
pub enum ConfigFault {
    Unparsable,
    UnknownMutation { name: Seq<char> },
    MissingGlobalOption { option: OptionName },
    MissingRequiredParameter { kind: MutationKind, parameter: OptionName },
    InvalidRangeShape,
    ValueOutOfRange,
}

impl View for ConfigError {
    type V = ConfigFault;

    open spec fn view(&self) -> ConfigFault {
        match *self {
            ConfigError::Unparsable => ConfigFault::Unparsable,
            ConfigError::UnknownMutation { name } => ConfigFault::UnknownMutation { name: name@ },
            ConfigError::MissingGlobalOption { option } => ConfigFault::MissingGlobalOption {
                option,
            },
            ConfigError::MissingRequiredParameter {
                kind,
                parameter,
            } => ConfigFault::MissingRequiredParameter { kind, parameter },
            ConfigError::InvalidRangeShape => ConfigFault::InvalidRangeShape,
            ConfigError::ValueOutOfRange => ConfigFault::ValueOutOfRange,
        }
    }
}

impl ConfigFault {
    /// The message for the user: what is wrong, and an example of how the
    /// option in question is set.
    pub open spec fn text(self) -> Seq<char> {
        match self {
            ConfigFault::Unparsable => "The options are no TOML document."@,
            ConfigFault::UnknownMutation { name } => "Invalid mutation: '"@ + name
                + "'. Only allowed mutations: Void, Chaos, Loops, Reverse, Shift, Shuffle, Swap, Increase, Gradient, Multiply, Compress."@,
            ConfigFault::MissingGlobalOption { option } => "'"@ + option.key()
                + "' is required to be set globally, for example: "@ + option.example(),
            ConfigFault::MissingRequiredParameter { kind, parameter } => "'"@ + parameter.key()
                + "' is required to be set under ["@ + kind.block() + "], for example: "@
                + parameter.example(),
            ConfigFault::InvalidRangeShape => "A range is declared by one number or by two, for example: iterations = [1, 5]"@,
            ConfigFault::ValueOutOfRange => "The numbers of a range must not be negative, for example: chunksize = [0, 100]"@,
        }
    }
}

impl ConfigError {
    /// The message for the user: what is wrong, and an example of how the
    /// option in question is set.
    pub fn message(&self) -> (text: String)
        ensures
            text@ == self@.text(),
    {
        match self {
            ConfigError::Unparsable => String::from_str("The options are no TOML document."),
            ConfigError::UnknownMutation { name } => {
                let mut text = String::from_str("Invalid mutation: '");
                text.append(name.as_str());
                text.append(
                    "'. Only allowed mutations: Void, Chaos, Loops, Reverse, Shift, Shuffle, Swap, Increase, Gradient, Multiply, Compress.",
                );
                text
            },
            ConfigError::MissingGlobalOption { option } => {
                let mut text = String::from_str("'");
                text.append(option.as_str());
                text.append("' is required to be set globally, for example: ");
                text.append(option.example_text());
                text
            },
            ConfigError::MissingRequiredParameter { kind, parameter } => {
                let mut text = String::from_str("'");
                text.append(parameter.as_str());
                text.append("' is required to be set under [");
                text.append(kind.block_name());
                text.append("], for example: ");
                text.append(parameter.example_text());
                text
            },
            ConfigError::InvalidRangeShape => String::from_str(
                "A range is declared by one number or by two, for example: iterations = [1, 5]",
            ),
            ConfigError::ValueOutOfRange => String::from_str(
                "The numbers of a range must not be negative, for example: chunksize = [0, 100]",
            ),
        }
    }
}

/// Why a mutation was not applied.
#[derive(Clone, Copy, Debug, PartialEq, Eq, Structural)]
pub enum FailureKind {
    /// The sampled chunk size leaves no room for what the mutation does.
    ChunkTooLarge,
    /// The configuration holds no parameters for the mutation.
    NotConfigured,
    /// The sampled chunk size is zero where the mutation divides by it.
    EmptyChunk,
    /// The buffer is empty, so it has no active region to pick an index from.
    EmptyBuffer,
    /// A window or an index lies outside the buffer or its active region.
    OutOfBounds,
    /// The fast random generator could not be seeded.
    NoiseUnavailable,
    /// No factor was supplied for a Multiply.
    MissingFactor,
}

/// The failure of one mutation: its kind, and a text for the user.
#[derive(Debug)]
pub struct MutationError {
    pub kind: FailureKind,
    pub error: String,
}

impl FailureKind {
    /// The text that describes a failure of this kind.
    pub open spec fn text(self) -> Seq<char> {
        match self {
            FailureKind::ChunkTooLarge => "Cannot perform the mutation - Chunksize is too large."@,
            FailureKind::NotConfigured => "Cannot perform the mutation - it has no configuration."@,
            FailureKind::EmptyChunk => "Cannot perform the mutation - Chunksize is zero."@,
            FailureKind::EmptyBuffer => "Cannot perform the mutation - the buffer is empty."@,
            FailureKind::OutOfBounds => "Cannot perform the mutation - a window lies out of bounds."@,
            FailureKind::NoiseUnavailable => "Cannot perform the mutation - no random generator."@,
            FailureKind::MissingFactor => "Cannot perform the mutation - no factor was given."@,
        }
    }

    /// The text of `text`, as a string.
    pub fn describe(self) -> (text: &'static str)
        ensures
            text@ == self.text(),
    {
        match self {
            FailureKind::ChunkTooLarge => "Cannot perform the mutation - Chunksize is too large.",
            FailureKind::NotConfigured => "Cannot perform the mutation - it has no configuration.",
            FailureKind::EmptyChunk => "Cannot perform the mutation - Chunksize is zero.",
            FailureKind::EmptyBuffer => "Cannot perform the mutation - the buffer is empty.",
            FailureKind::OutOfBounds => "Cannot perform the mutation - a window lies out of bounds.",
            FailureKind::NoiseUnavailable => "Cannot perform the mutation - no random generator.",
            FailureKind::MissingFactor => "Cannot perform the mutation - no factor was given.",
        }
    }
}

/// The text of a failure of the given kind together with the place in the
/// buffer, the chunk size and the length of the buffer that it occurred with.
pub open spec fn measured_text(kind: FailureKind, at: int, chunksize: int, length: int) -> Seq<char> {
    kind.text() + " [at = "@ + decimal(at as nat) + ", chunksize = "@ + decimal(chunksize as nat)
        + ", length = "@ + decimal(length as nat) + "]"@
}

impl MutationError {
    /// An error of the given kind whose text also tells the place in the
    /// buffer, the chunk size and the length of the buffer.
    pub fn measured(kind: FailureKind, at: usize, chunksize: usize, length: usize) -> (made: Self)
        ensures
            made.kind == kind,
            made.error@ == measured_text(kind, at as int, chunksize as int, length as int),
    {
        let mut error = String::from_str(kind.describe());
        error.append(" [at = ");
        error.append(write_decimal(at).as_str());
        error.append(", chunksize = ");
        error.append(write_decimal(chunksize).as_str());
        error.append(", length = ");
        error.append(write_decimal(length).as_str());
        error.append("]");
        MutationError { kind, error }
    }

    /// An error of the given kind with the given text.
    pub fn new(kind: FailureKind, error: String) -> (made: Self)
        ensures
            made.kind == kind,
            made.error == error,
    {
        MutationError { kind, error }
    }

    /// An error of the given kind with the text that belongs to the kind.
    pub fn of(kind: FailureKind) -> (made: Self)
        ensures
            made.kind == kind,
            made.error@ == kind.text(),
    {
        MutationError { kind, error: String::from_str(kind.describe()) }
    }
}

} // verus!

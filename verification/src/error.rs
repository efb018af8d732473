use vstd::prelude::*;

verus! {

/// An error that might happen during a clipboard operation.
#[derive(Clone, Debug, PartialEq, Eq)]
#[non_exhaustive]
pub enum Error {
    /// The clipboard contents were not available in the requested format.
    /// This could either be due to the clipboard being empty or the clipboard contents having
    /// an incompatible format to the requested one (eg when calling `get_image` on text)
    ContentNotAvailable,
    /// The selected clipboard is not supported by the current configuration (system and/or
    /// environment).
    ClipboardNotSupported,
    /// The native clipboard is not accessible due to being held by an other party.
    ClipboardOccupied,
    /// The image or the text that was about the be transferred to/from the clipboard could not
    /// be converted to the appropriate format.
    ConversionFailure,
    /// Any error that doesn't fit the other error types.
    ///
    /// The `description` field is only meant to help the developer and should not be relied on
    /// as a means to identify an error case during runtime.
    Unknown { description: String },
}

/// The name of the variant of an error, as the debug output shows it.
pub open spec fn spec_kind_name(e: Error) -> Seq<char> {
    match e {
        Error::ContentNotAvailable => "ContentNotAvailable"@,
        Error::ClipboardNotSupported => "ClipboardNotSupported"@,
        Error::ClipboardOccupied => "ClipboardOccupied"@,
        Error::ConversionFailure => "ConversionFailure"@,
        Error::Unknown { .. } => "Unknown { .. }"@,
    }
}

/// The human-readable description of an error.
pub open spec fn spec_message(e: Error) -> Seq<char> {
    match e {
        Error::ContentNotAvailable =>
            "The clipboard contents were not available in the requested format or the clipboard is empty."@,
        Error::ClipboardNotSupported =>
            "The selected clipboard is not supported with the current system configuration."@,
        Error::ClipboardOccupied =>
            "The native clipboard is not accessible due to being held by an other party."@,
        Error::ConversionFailure =>
            "The image or the text that was about the be transferred to/from the clipboard could not be converted to the appropriate format."@,
        Error::Unknown { description } =>
            "Unknown error while interacting with the clipboard: "@ + description@,
    }
}

/// The debug rendering of an error: its variant name followed by its quoted message.
pub open spec fn spec_debug_message(e: Error) -> Seq<char> {
    spec_kind_name(e) + " - \""@ + spec_message(e) + "\""@
}

/// Whether `e` is an `Unknown` error carrying exactly the text `d`.
pub open spec fn is_unknown_with(e: Error, d: Seq<char>) -> bool {
    e matches Error::Unknown { description } && description@ == d
}

impl Error {
    /// An `Unknown` error with the given description.
    pub fn unknown(description: &str) -> (e: Error)
        ensures
            is_unknown_with(e, description@),
    {
        Error::Unknown { description: description.to_owned() }
    }

    /// The name of the error's variant.
    pub fn kind_name(&self) -> (name: &'static str)
        ensures
            name@ == spec_kind_name(*self),
    {
        match self {
            Error::ContentNotAvailable => "ContentNotAvailable",
            Error::ClipboardNotSupported => "ClipboardNotSupported",
            Error::ClipboardOccupied => "ClipboardOccupied",
            Error::ConversionFailure => "ConversionFailure",
            Error::Unknown { .. } => "Unknown { .. }",
        }
    }

    /// A short human-readable description of the error.
    pub fn message(&self) -> (m: String)
        ensures
            m@ == spec_message(*self),
    {
        match self {
            Error::ContentNotAvailable => String::from_str(
                "The clipboard contents were not available in the requested format or the clipboard is empty.",
            ),
            Error::ClipboardNotSupported => String::from_str(
                "The selected clipboard is not supported with the current system configuration.",
            ),
            Error::ClipboardOccupied => String::from_str(
                "The native clipboard is not accessible due to being held by an other party.",
            ),
            Error::ConversionFailure => String::from_str(
                "The image or the text that was about the be transferred to/from the clipboard could not be converted to the appropriate format.",
            ),
            Error::Unknown { description } => {
                let mut m = String::from_str("Unknown error while interacting with the clipboard: ");
                m.append(description.as_str());
                m
            },
        }
    }

    /// The variant name followed by the quoted message, as in `Name - "message"`.
    pub fn debug_message(&self) -> (m: String)
        ensures
            m@ == spec_debug_message(*self),
    {
        let mut m = String::from_str(self.kind_name());
        m.append(" - \"");
        let msg = self.message();
        m.append(msg.as_str());
        m.append("\"");
        m
    }
}

/// Wraps the text of a foreign error into an `Unknown` error.
pub fn into_unknown(description: &str) -> (e: Error)
    ensures
        is_unknown_with(e, description@),
{
    Error::unknown(description)
}

/// An error that is nothing but its message, shown exactly as it was given.
#[derive(Clone, Debug, PartialEq, Eq)]
pub struct MessageError {
    pub text: String,
}

impl MessageError {
    /// The message, as it was given.
    pub fn message(&self) -> (m: String)
        ensures
            m@ == self.text@,
    {
        self.text.clone()
    }
}

/// Whether `e` carries exactly the message `d`.
pub open spec fn is_message(e: MessageError, d: Seq<char>) -> bool {
    e.text@ == d
}

/// An error that carries nothing but the given message.
pub fn err(s: &str) -> (e: MessageError)
    ensures
        is_message(e, s@),
{
    MessageError { text: s.to_owned() }
}

} // verus!

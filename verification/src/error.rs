//! Why a document was turned down.

use vstd::prelude::*;
use vstd::std_specs::cmp::PartialEqSpecImpl;
use crate::text::same_text;

verus! {

/// The reason a document could not be decoded. Every error ends the decoding:
/// no part of a result is handed out beside it.
#[derive(Debug, Eq)]
pub enum DecodeError {
    /// A member with a fixed name is missing or holds a value of the wrong
    /// kind. Carries the name of the member.
    SchemaViolation(String),
    /// A member of a section has a name that follows none of the accepted
    /// patterns. Carries the name.
    UnrecognizedField(String),
    /// Of a context and its symbol only one is given, or a file-name hit
    /// carries lines.
    InvalidValue,
    /// The input is no JSON text, or not a JSON object.
    MalformedPayload,
}

/// What a [`DecodeError`] stands for.
pub enum DecodeErrorView {
    SchemaViolation(Seq<char>),
    UnrecognizedField(Seq<char>),
    InvalidValue,
    MalformedPayload,
}

impl View for DecodeError {
    type V = DecodeErrorView;

    open spec fn view(&self) -> DecodeErrorView {
        match self {
            DecodeError::SchemaViolation(field) => DecodeErrorView::SchemaViolation(field@),
            DecodeError::UnrecognizedField(key) => DecodeErrorView::UnrecognizedField(key@),
            DecodeError::InvalidValue => DecodeErrorView::InvalidValue,
            DecodeError::MalformedPayload => DecodeErrorView::MalformedPayload,
        }
    }
}

impl DeepView for DecodeError {
    type V = DecodeErrorView;

    open spec fn deep_view(&self) -> DecodeErrorView {
        self@
    }
}

/// What the result of a decoding stands for: the value that was decoded, or
/// the error.
pub open spec fn outcome<T: DeepView>(result: Result<T, DecodeError>) -> Result<
    T::V,
    DecodeErrorView,
> {
    match result {
        Ok(value) => Ok(value.deep_view()),
        Err(error) => Err(error@),
    }
}

impl PartialEq for DecodeError {
    fn eq(&self, other: &Self) -> (same: bool) {
        match (self, other) {
            (DecodeError::SchemaViolation(a), DecodeError::SchemaViolation(b)) => same_text(
                a.as_str(),
                b.as_str(),
            ),
            (DecodeError::UnrecognizedField(a), DecodeError::UnrecognizedField(b)) => same_text(
                a.as_str(),
                b.as_str(),
            ),
            (DecodeError::InvalidValue, DecodeError::InvalidValue) => true,
            (DecodeError::MalformedPayload, DecodeError::MalformedPayload) => true,
            _ => false,
        }
    }
}

impl PartialEqSpecImpl for DecodeError {
    open spec fn obeys_eq_spec() -> bool {
        true
    }

    open spec fn eq_spec(&self, other: &Self) -> bool {
        self@ == other@
    }
}

/// The member names that a section accepts, as they are shown to a reader:
/// two fixed names and three patterns, `...` standing for a symbol.
pub open spec fn accepted_names() -> Seq<Seq<char>> {
    seq![
        "Files"@,
        "Textual Occurrences"@,
        "Definitions (...)"@,
        "Declarations (...)"@,
        "Uses (...)"@,
    ]
}

/// The text that [`DecodeError::message`] gives for an error.
pub open spec fn message_of(error: DecodeErrorView) -> Seq<char> {
    match error {
        DecodeErrorView::SchemaViolation(field) => "missing or mistyped field `"@ + field + "`"@,
        DecodeErrorView::UnrecognizedField(key) => "unknown field `"@ + key
            + "`, expected one of `Files`, `Textual Occurrences`, `Definitions (...)`, `Declarations (...)`, `Uses (...)`"@,
        DecodeErrorView::InvalidValue => "a context without its symbol, a symbol without its context, or a file name with lines"@,
        DecodeErrorView::MalformedPayload => "the payload is not a JSON object"@,
    }
}

impl DecodeError {
    /// The member names that a section accepts: see [`accepted_names`].
    pub fn expected_fields() -> (names: Vec<&'static str>)
        ensures
            names@.len() == accepted_names().len(),
            forall|i: int| 0 <= i < names@.len() ==> names@[i]@ == accepted_names()[i],
    {
        let mut names: Vec<&'static str> = Vec::new();
        names.push("Files");
        names.push("Textual Occurrences");
        names.push("Definitions (...)");
        names.push("Declarations (...)");
        names.push("Uses (...)");
        names
    }

    /// A sentence for the reader of a log: what was wrong, and with which
    /// member.
    pub fn message(&self) -> (text: String)
        ensures
            text@ == message_of(self@),
    {
        match self {
            DecodeError::SchemaViolation(field) => {
                String::from_str("missing or mistyped field `").concat(field.as_str()).concat("`")
            },
            DecodeError::UnrecognizedField(key) => {
                String::from_str("unknown field `").concat(key.as_str()).concat(
                    "`, expected one of `Files`, `Textual Occurrences`, `Definitions (...)`, `Declarations (...)`, `Uses (...)`",
                )
            },
            DecodeError::InvalidValue => String::from_str(
                "a context without its symbol, a symbol without its context, or a file name with lines",
            ),
            DecodeError::MalformedPayload => String::from_str("the payload is not a JSON object"),
        }
    }
}

} // verus!

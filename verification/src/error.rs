//! What a parser reports: the fatal error that ends a run, and the warnings
//! about structure it did not recognise.

use vstd::prelude::*;

verus! {

/// Why a document was rejected.
#[derive(Clone, Copy, Debug, PartialEq, Eq, Structural)]
pub enum ErrorKind {
    /// The tokenizer found malformed markup.
    Markup,
    /// The document ended inside an element.
    UnexpectedEnd,
    /// A text holds an escape sequence that cannot be resolved.
    Escape,
    /// An identifier field opened inside an identifier field.
    NestedId,
    /// An identifier field closed that was not open.
    MismatchedId,
    /// The identifier is not an unsigned number.
    InvalidId,
    /// The record has no identifier, or the identifier zero.
    MissingId,
    /// The record has no reading.
    NoReadings,
    /// A headword has white space around it.
    UntrimmedKanji,
    /// A headword is empty.
    EmptyKanji,
    /// A pronunciation has white space around it.
    UntrimmedKana,
    /// A pronunciation is empty.
    EmptyKana,
    /// Two glosses of one sense name different languages.
    LanguageMismatch,
    /// A language marker is not UTF-8.
    InvalidLanguage,
    /// A coded value is not a single entity reference.
    MalformedEntity,
    /// A cross-reference is empty.
    EmptyCrossReference,
    /// A cross-reference has more parts than a word and a reading.
    AmbiguousCrossReference,
}

/// A fatal error and the byte offset of the stream at which it was found.
#[derive(Clone, Copy, Debug, PartialEq, Eq, Structural)]
pub struct ParseError {
    pub kind: ErrorKind,
    pub offset: usize,
}

/// The element inside which a warning arose.
#[derive(Clone, Copy, Debug, PartialEq, Eq, Structural)]
pub enum Scope {
    Entry,
    Kanji,
    Reading,
}

/// What a warning is about.
#[derive(Clone, Copy, Debug, PartialEq, Eq, Structural)]
pub enum WarningKind {
    /// A child element that the schema does not know.
    UnknownTag,
    /// Text outside every known field.
    UnexpectedText,
}

/// Something the parser passed over. `subject` is the raw name of the tag,
/// or the raw text.
#[derive(Debug, PartialEq, Eq)]
pub struct Warning {
    pub kind: WarningKind,
    pub scope: Scope,
    pub offset: usize,
    pub subject: Vec<u8>,
}

/// The mathematical content of a [`Warning`].
pub struct WarningModel {
    pub kind: WarningKind,
    pub scope: Scope,
    pub offset: usize,
    pub subject: Seq<u8>,
}

impl View for Warning {
    type V = WarningModel;

    open spec fn view(&self) -> WarningModel {
        WarningModel {
            kind: self.kind,
            scope: self.scope,
            offset: self.offset,
            subject: self.subject@,
        }
    }
}

impl DeepView for Warning {
    type V = WarningModel;

    open spec fn deep_view(&self) -> WarningModel {
        self@
    }
}

} // verus!

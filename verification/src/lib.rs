//! Reading a JMdict dictionary file into validated records.
//!
//! The document is tokenised by `quick_xml`; everything above the tokens
//! (the per-element state machines, the entity decoder and the
//! cross-reference disambiguator) is verified here against mathematical
//! models of the token stream and of the records.
//!
//! * [`token`] wraps the tokenizer: a stream is what it has yet to deliver.
//! * [`schema`] names the elements; [`text`] holds the character classes,
//!   numbers and splitting; [`tags`] the short tag lists.
//! * [`entity`] and [`xref`] read the two kinds of coded text.
//! * [`kanji`], [`reading`], [`sense`] and [`entry`] each read one element;
//!   [`document`] scans a whole file for records.
//! * [`outcome`] and [`error`] say how a run ends; [`sense_laws`] states what
//!   holds of every sense that passes.

pub mod document;
pub mod entity;
pub mod entry;
pub mod error;
pub mod kanji;
pub mod outcome;
pub mod reading;
pub mod schema;
pub mod sense;
pub mod sense_laws;
pub mod tags;
pub mod text;
pub mod token;
pub mod xref;

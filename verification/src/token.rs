//! The token stream: what `quick_xml` makes of a document, as plain values.
//!
//! A stream is modelled by the events it has yet to deliver. Reading takes
//! the first of them; the end of the document stays where it is and is
//! delivered again on every later read.

use quick_xml::events::{BytesStart, BytesText, Event};
use quick_xml::Reader;
use vstd::prelude::*;

verus! {

/// What a token is, with the bytes it carries.
#[derive(Debug, PartialEq, Eq)]
pub enum TokenKind {
    /// An opening tag: its name, and its whole content (name and attributes).
    Start { name: Vec<u8>, content: Vec<u8> },
    /// A closing tag.
    End { name: Vec<u8> },
    /// Character data, still escaped.
    Text { raw: Vec<u8> },
    /// The end of the document.
    Eof,
    /// A comment, declaration, processing instruction or the like.
    Other,
    /// Markup that the tokenizer could not read.
    Invalid,
}

/// A token and the byte offset of the stream once it was read.
#[derive(Debug, PartialEq, Eq)]
pub struct Token {
    pub kind: TokenKind,
    pub offset: usize,
}

/// The mathematical content of a [`TokenKind`].
pub enum TokenKindModel {
    Start { name: Seq<u8>, content: Seq<u8> },
    End { name: Seq<u8> },
    Text { raw: Seq<u8> },
    Eof,
    Other,
    Invalid,
}

impl View for TokenKind {
    type V = TokenKindModel;

    open spec fn view(&self) -> TokenKindModel {
        match *self {
            TokenKind::Start { name, content } => TokenKindModel::Start {
                name: name@,
                content: content@,
            },
            TokenKind::End { name } => TokenKindModel::End { name: name@ },
            TokenKind::Text { raw } => TokenKindModel::Text { raw: raw@ },
            TokenKind::Eof => TokenKindModel::Eof,
            TokenKind::Other => TokenKindModel::Other,
            TokenKind::Invalid => TokenKindModel::Invalid,
        }
    }
}

/// An event that a stream will deliver: the token, the offset after it, and
/// the text encoding in force once it has been read. Encodings are told apart
/// by a number; which number stands for which encoding is left open.
pub struct XmlEvent {
    pub kind: TokenKindModel,
    pub offset: usize,
    pub codec: int,
}

/// One attribute of an opening tag, as written: the value is still escaped.
#[derive(Debug, PartialEq, Eq)]
pub struct Attribute {
    pub key: Vec<u8>,
    pub value: Vec<u8>,
}

/// The mathematical content of an [`Attribute`].
pub struct AttributeModel {
    pub key: Seq<u8>,
    pub value: Seq<u8>,
}

impl View for Attribute {
    type V = AttributeModel;

    open spec fn view(&self) -> AttributeModel {
        AttributeModel { key: self.key@, value: self.value@ }
    }
}

/// The models of a list of attributes, `None` standing for one that is
/// malformed.
pub open spec fn attribute_models(attrs: Seq<Option<Attribute>>) -> Seq<Option<AttributeModel>> {
    attrs.map_values(
        |a: Option<Attribute>|
            match a {
                Some(x) => Some(x@),
                None => None,
            },
    )
}

/// The tokenizer over a document held in memory.
#[verifier::external_body]
pub struct XmlSource<'a> {
    reader: Reader<&'a [u8]>,
}

/// The events that a source has yet to deliver, up to and including the end
/// of the document.
pub uninterp spec fn pending_events(source: XmlSource) -> Seq<XmlEvent>;

/// The text encoding that a source currently decodes with.
pub uninterp spec fn text_codec(source: XmlSource) -> int;

/// The events of a whole document.
pub uninterp spec fn document_events(input: Seq<u8>) -> Seq<XmlEvent>;

/// The text that bytes stand for in an encoding.
pub uninterp spec fn decoded(codec: int, bytes: Seq<u8>) -> Seq<char>;

/// The text that escaped bytes stand for in an encoding, if every escape
/// sequence in them can be resolved.
pub uninterp spec fn unescaped(codec: int, raw: Seq<u8>) -> Option<Seq<char>>;

/// The attributes written in the content of an opening tag whose name has
/// the given length, in order, `None` for a malformed one.
pub uninterp spec fn attributes_of(content: Seq<u8>, name_len: nat) -> Seq<Option<AttributeModel>>;

/// `Reader::from_reader` on a byte slice, set to trim text, to leave closing
/// names unchecked and to expand empty elements. The claim: what the new
/// reader will deliver depends on the input alone.
#[verifier::external_body]
fn open_source<'a>(input: &'a [u8]) -> (source: XmlSource<'a>)
    ensures
        pending_events(source) == document_events(input@),
{
    let mut reader = Reader::from_reader(input);
    reader.trim_text(true);
    reader.check_end_names(false);
    reader.expand_empty_elements(true);
    XmlSource { reader }
}

/// `Reader::read_event` with a fresh buffer, then `Reader::buffer_position`.
/// The claims: there is always an event to deliver; the token is the first
/// pending one, with the offset reached, and the encoding in force is the one
/// that event announces; the end of the document stays pending, every other
/// event is taken off. An error of the reader comes as the token `Invalid`.
#[verifier::external_body]
fn read_token(source: &mut XmlSource) -> (token: Token)
    ensures
        pending_events(*old(source)).len() > 0,
        token.kind@ == pending_events(*old(source))[0].kind,
        token.offset == pending_events(*old(source))[0].offset,
        text_codec(*final(source)) == pending_events(*old(source))[0].codec,
        pending_events(*final(source)) == if token.kind is Eof {
            pending_events(*old(source))
        } else {
            pending_events(*old(source)).skip(1)
        },
{
    let mut buf = Vec::new();
    let kind = match source.reader.read_event(&mut buf) {
        Ok(Event::Start(e)) => TokenKind::Start { name: e.name().to_vec(), content: e.to_vec() },
        Ok(Event::End(e)) => TokenKind::End { name: e.name().to_vec() },
        Ok(Event::Text(e)) => TokenKind::Text { raw: e.escaped().to_vec() },
        Ok(Event::Eof) => TokenKind::Eof,
        Ok(_) => TokenKind::Other,
        Err(_) => TokenKind::Invalid,
    };
    Token { kind, offset: source.reader.buffer_position() }
}

/// `Reader::decode`: the bytes as text in the reader's current encoding,
/// malformed sequences replaced. It cannot fail.
#[verifier::external_body]
fn decode_bytes(source: &XmlSource, bytes: &[u8]) -> (text: String)
    ensures
        text@ == decoded(text_codec(*source), bytes@),
{
    source.reader.decode(bytes).into_owned()
}

/// `BytesText::unescape_and_decode` on escaped bytes: the escape sequences
/// resolved and the result decoded in the reader's current encoding, or
/// `None` where an escape sequence is malformed or unknown.
#[verifier::external_body]
fn unescape_bytes(source: &XmlSource, raw: &[u8]) -> (text: Option<String>)
    ensures
        match text {
            Some(s) => unescaped(text_codec(*source), raw@) == Some(s@),
            None => unescaped(text_codec(*source), raw@) is None,
        },
{
    BytesText::from_escaped(raw).unescape_and_decode(&source.reader).ok()
}

/// `BytesStart::attributes`, run to its end, on a tag rebuilt from its
/// content and the length of its name. The iterator stops after the first
/// malformed attribute, which is listed as `None`.
#[verifier::external_body]
fn read_attributes(content: &[u8], name_len: usize) -> (attrs: Vec<Option<Attribute>>)
    ensures
        attribute_models(attrs@) == attributes_of(content@, name_len as nat),
{
    BytesStart::borrowed(content, name_len).attributes().map(
        |a| a.ok().map(|a| Attribute { key: a.key.to_vec(), value: a.value.into_owned() }),
    ).collect()
}

/// A document being read, and the offset reached in it.
pub struct TokenStream<'a> {
    source: XmlSource<'a>,
    position: usize,
}

impl<'a> TokenStream<'a> {
    /// The events yet to be delivered.
    pub closed spec fn pending(&self) -> Seq<XmlEvent> {
        pending_events(self.source)
    }

    /// The text encoding in force.
    pub closed spec fn codec(&self) -> int {
        text_codec(self.source)
    }

    /// The offset after the token read last.
    pub closed spec fn position(&self) -> usize {
        self.position
    }

    /// Starts reading a document.
    pub fn new(input: &'a [u8]) -> (stream: Self)
        ensures
            stream.pending() == document_events(input@),
            stream.position() == 0,
    {
        TokenStream { source: open_source(input), position: 0 }
    }

    /// Delivers the next token. At the end of the document the stream stays
    /// as it is; otherwise the token is taken off.
    pub fn next_token(&mut self) -> (token: Token)
        ensures
            old(self).pending().len() > 0,
            token.kind@ == old(self).pending()[0].kind,
            token.offset == old(self).pending()[0].offset,
            final(self).codec() == old(self).pending()[0].codec,
            final(self).position() == token.offset,
            final(self).pending() == if token.kind is Eof {
                old(self).pending()
            } else {
                old(self).pending().skip(1)
            },
    {
        let token = read_token(&mut self.source);
        self.position = token.offset;
        token
    }

    /// The offset after the token read last, zero before the first.
    pub fn buffer_position(&self) -> (offset: usize)
        ensures
            offset == self.position(),
    {
        self.position
    }

    /// Decodes bytes in the encoding in force.
    pub fn decode(&self, bytes: &[u8]) -> (text: String)
        ensures
            text@ == decoded(self.codec(), bytes@),
    {
        decode_bytes(&self.source, bytes)
    }

    /// Resolves the escape sequences of a text and decodes it in the encoding
    /// in force.
    pub fn unescape(&self, raw: &[u8]) -> (text: Option<String>)
        ensures
            match text {
                Some(s) => unescaped(self.codec(), raw@) == Some(s@),
                None => unescaped(self.codec(), raw@) is None,
            },
    {
        unescape_bytes(&self.source, raw)
    }
}

/// Lists the attributes of an opening tag.
pub fn attributes(name: &[u8], content: &[u8]) -> (attrs: Vec<Option<Attribute>>)
    ensures
        attribute_models(attrs@) == attributes_of(content@, name@.len()),
{
    read_attributes(content, name.len())
}

} // verus!

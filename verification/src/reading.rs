//! The readings of a record: `r_ele` elements.

use crate::entity::{entity_body, is_entity, parse_single_entity};
use crate::error::{ErrorKind, ParseError, Scope, Warning, WarningModel};
use crate::outcome::{
    fail, lemma_deep_view_empty, lemma_deep_view_push, logged, unexpected_text, unknown_tag,
    warn_unexpected_text, warn_unknown_tag, Outcome, Step,
};
use crate::schema::{classify, tag_of, Tag};
use crate::tags::{InfoVec, PriorityVec, TagVec};
use crate::text::{check_trimmed, is_space, is_trimmed};
use crate::token::{decoded, unescaped, TokenKind, TokenKindModel, TokenStream, XmlEvent};
use vstd::prelude::*;

verus! {

/// One reading of a record.
#[derive(Debug)]
pub struct ReadingEntry {
    /// The pronunciation, in kana.
    pub kana: String,
    /// Whether the reading is valid without any kanji spelling.
    pub no_kanji: bool,
    /// The kanji spellings that the reading is restricted to.
    pub related_kanji: Vec<String>,
    /// Coded notes on the reading.
    pub info: InfoVec,
    /// Priority codes.
    pub priority: PriorityVec,
}

/// The mathematical content of a [`ReadingEntry`].
pub struct ReadingModel {
    pub kana: Seq<char>,
    pub no_kanji: bool,
    pub related_kanji: Seq<Seq<char>>,
    pub info: Seq<Seq<char>>,
    pub priority: Seq<Seq<char>>,
}

impl ReadingModel {
    /// What holds of every reading that the parser lets through: the
    /// pronunciation is not empty and has no white space around it.
    pub open spec fn wf(self) -> bool {
        self.kana.len() > 0 && is_trimmed(self.kana)
    }
}

impl View for ReadingEntry {
    type V = ReadingModel;

    open spec fn view(&self) -> ReadingModel {
        ReadingModel {
            kana: self.kana@,
            no_kanji: self.no_kanji,
            related_kanji: self.related_kanji.deep_view(),
            info: self.info@,
            priority: self.priority@,
        }
    }
}

impl DeepView for ReadingEntry {
    type V = ReadingModel;

    open spec fn deep_view(&self) -> ReadingModel {
        self@
    }
}

/// The child of `r_ele` whose text is awaited.
#[derive(Clone, Copy, Debug, PartialEq, Eq, Structural)]
pub enum ReadingField {
    Reb,
    ReRestr,
    ReInf,
    RePri,
}

/// The state of the parser between two events.
pub struct ReadingState {
    pub entry: ReadingModel,
    pub cursor: Option<ReadingField>,
}

/// The state in which the parser starts: nothing read, no field open.
pub open spec fn reading_start() -> ReadingState {
    ReadingState {
        entry: ReadingModel {
            kana: Seq::empty(),
            no_kanji: false,
            related_kanji: Seq::empty(),
            info: Seq::empty(),
            priority: Seq::empty(),
        },
        cursor: None,
    }
}

/// The check made when the element closes.
pub open spec fn reading_finish(entry: ReadingModel, offset: usize) -> Result<
    ReadingModel,
    ParseError,
> {
    if !is_trimmed(entry.kana) {
        Err(ParseError { kind: ErrorKind::UntrimmedKana, offset })
    } else if entry.kana.len() == 0 {
        Err(ParseError { kind: ErrorKind::EmptyKana, offset })
    } else {
        Ok(entry)
    }
}

/// What a text does to the parser, by the field under the cursor: the
/// pronunciation, the restrictions and the priority codes are unescaped, the
/// notes are coded values; with no field open the text gives a warning.
pub open spec fn reading_text(st: ReadingState, raw: Seq<u8>, offset: usize, codec: int) -> Step<
    ReadingState,
    ReadingModel,
> {
    match st.cursor {
        Some(ReadingField::Reb) => match unescaped(codec, raw) {
            Some(text) => Step::Go(
                ReadingState { entry: ReadingModel { kana: text, ..st.entry }, ..st },
                None,
            ),
            None => fail(ErrorKind::Escape, offset),
        },
        Some(ReadingField::ReRestr) => match unescaped(codec, raw) {
            Some(text) => Step::Go(
                ReadingState {
                    entry: ReadingModel {
                        related_kanji: st.entry.related_kanji.push(text),
                        ..st.entry
                    },
                    ..st
                },
                None,
            ),
            None => fail(ErrorKind::Escape, offset),
        },
        Some(ReadingField::ReInf) => if is_entity(raw) {
            Step::Go(
                ReadingState {
                    entry: ReadingModel {
                        info: st.entry.info.push(decoded(codec, entity_body(raw))),
                        ..st.entry
                    },
                    ..st
                },
                None,
            )
        } else {
            fail(ErrorKind::MalformedEntity, offset)
        },
        Some(ReadingField::RePri) => match unescaped(codec, raw) {
            Some(text) => Step::Go(
                ReadingState {
                    entry: ReadingModel { priority: st.entry.priority.push(text), ..st.entry },
                    ..st
                },
                None,
            ),
            None => fail(ErrorKind::Escape, offset),
        },
        None => Step::Go(st, Some(unexpected_text(Scope::Reading, offset, raw))),
    }
}

/// What one event does to the parser.
///
/// An opening tag of a known child moves the cursor there, but for the
/// marker `re_nokanji`, which sets its flag and expects no text; of an
/// unknown one it gives a warning. The closing tag of the element ends the
/// parser; any other closing tag resets the cursor.
pub open spec fn reading_step(st: ReadingState, ev: XmlEvent) -> Step<ReadingState, ReadingModel> {
    match ev.kind {
        TokenKindModel::Start { name, content } => match tag_of(name) {
            Tag::Reb => Step::Go(ReadingState { cursor: Some(ReadingField::Reb), ..st }, None),
            Tag::ReNokanji => Step::Go(
                ReadingState { entry: ReadingModel { no_kanji: true, ..st.entry }, ..st },
                None,
            ),
            Tag::ReRestr => Step::Go(
                ReadingState { cursor: Some(ReadingField::ReRestr), ..st },
                None,
            ),
            Tag::ReInf => Step::Go(ReadingState { cursor: Some(ReadingField::ReInf), ..st }, None),
            Tag::RePri => Step::Go(ReadingState { cursor: Some(ReadingField::RePri), ..st }, None),
            _ => Step::Go(st, Some(unknown_tag(Scope::Reading, ev.offset, name))),
        },
        TokenKindModel::End { name } => if tag_of(name) == Tag::REle {
            Step::Done(reading_finish(st.entry, ev.offset))
        } else {
            Step::Go(ReadingState { cursor: None, ..st }, None)
        },
        TokenKindModel::Text { raw } => reading_text(st, raw, ev.offset, ev.codec),
        TokenKindModel::Eof => fail(ErrorKind::UnexpectedEnd, ev.offset),
        TokenKindModel::Other => Step::Go(st, None),
        TokenKindModel::Invalid => fail(ErrorKind::Markup, ev.offset),
    }
}

/// The run of the parser from state `st` over `events`, with the warnings
/// of earlier parsers in `log`. It reads up to the event that ends it; the
/// end of the document is not taken off.
pub open spec fn reading_run(
    events: Seq<XmlEvent>,
    st: ReadingState,
    log: Seq<WarningModel>,
) -> Outcome<ReadingModel>
    decreases events.len(),
{
    if events.len() == 0 {
        Outcome {
            result: Err(ParseError { kind: ErrorKind::UnexpectedEnd, offset: 0 }),
            rest: events,
            position: 0,
            warnings: log,
        }
    } else {
        match reading_step(st, events[0]) {
            Step::Go(next, warning) => reading_run(events.skip(1), next, logged(log, warning)),
            Step::Done(result) => Outcome {
                result,
                rest: if events[0].kind is Eof {
                    events
                } else {
                    events.skip(1)
                },
                position: events[0].offset,
                warnings: log,
            },
        }
    }
}

/// A run leaves no more events than it was given.
pub proof fn lemma_reading_rest(events: Seq<XmlEvent>, st: ReadingState, log: Seq<WarningModel>)
    ensures
        reading_run(events, st, log).rest.len() <= events.len(),
    decreases events.len(),
{
    if events.len() > 0 {
        match reading_step(st, events[0]) {
            Step::Go(next, warning) => lemma_reading_rest(
                events.skip(1),
                next,
                logged(log, warning),
            ),
            Step::Done(result) => {},
        }
    }
}

/// A run that succeeds gives a well-formed reading: a pronunciation with
/// white space around it, or an empty one, never passes.
pub proof fn lemma_reading_wf(events: Seq<XmlEvent>, st: ReadingState, log: Seq<WarningModel>)
    ensures
        reading_run(events, st, log).result matches Ok(entry) ==> entry.wf(),
    decreases events.len(),
{
    if events.len() > 0 {
        match reading_step(st, events[0]) {
            Step::Go(next, warning) => lemma_reading_wf(events.skip(1), next, logged(log, warning)),
            Step::Done(result) => {},
        }
    }
}

/// The final check lets a reading through if and only if its pronunciation
/// is not empty and has no white space at either end.
pub proof fn lemma_reading_refused(entry: ReadingModel, offset: usize)
    ensures
        reading_finish(entry, offset) is Ok <==> entry.wf(),
        entry.kana.len() > 0 && (is_space(entry.kana[0]) || is_space(entry.kana.last()))
            ==> reading_finish(entry, offset) == Err::<ReadingModel, ParseError>(
            ParseError { kind: ErrorKind::UntrimmedKana, offset },
        ),
{
}

/// Reads one `r_ele` element, whose opening tag has just been read, up to
/// its closing tag.
pub fn parse_r_ele(stream: &mut TokenStream, warnings: &mut Vec<Warning>) -> (r: Result<
    ReadingEntry,
    ParseError,
>)
    ensures
        ({
            let out = reading_run(
                old(stream).pending(),
                reading_start(),
                (*old(warnings)).deep_view(),
            );
            &&& final(stream).pending() == out.rest
            &&& final(stream).position() == out.position
            &&& (*final(warnings)).deep_view() == out.warnings
            &&& match r {
                Ok(entry) => out.result == Ok::<ReadingModel, ParseError>(entry@) && entry@.wf(),
                Err(e) => out.result == Err::<ReadingModel, ParseError>(e),
            }
        }),
{
    let ghost out = reading_run(stream.pending(), reading_start(), (*warnings).deep_view());
    let mut kana = String::new();
    let mut no_kanji = false;
    let mut related_kanji: Vec<String> = Vec::new();
    let mut info = TagVec::new();
    let mut priority = TagVec::new();
    let mut cursor: Option<ReadingField> = None;
    proof {
        lemma_deep_view_empty(related_kanji);
    }
    loop
        invariant
            out == reading_run(
                old(stream).pending(),
                reading_start(),
                (*old(warnings)).deep_view(),
            ),
            out == reading_run(
                stream.pending(),
                ReadingState {
                    entry: ReadingModel {
                        kana: kana@,
                        no_kanji,
                        related_kanji: related_kanji.deep_view(),
                        info: info@,
                        priority: priority@,
                    },
                    cursor,
                },
                (*warnings).deep_view(),
            ),
        decreases stream.pending().len(),
    {
        let token = stream.next_token();
        let offset = token.offset;
        match token.kind {
            TokenKind::Start { name, content } => {
                match classify(name.as_slice()) {
                    Tag::Reb => {
                        cursor = Some(ReadingField::Reb);
                    },
                    Tag::ReNokanji => {
                        no_kanji = true;
                    },
                    Tag::ReRestr => {
                        cursor = Some(ReadingField::ReRestr);
                    },
                    Tag::ReInf => {
                        cursor = Some(ReadingField::ReInf);
                    },
                    Tag::RePri => {
                        cursor = Some(ReadingField::RePri);
                    },
                    _ => {
                        warn_unknown_tag(warnings, name, offset, Scope::Reading);
                    },
                }
            },
            TokenKind::End { name } => {
                if classify(name.as_slice()) == Tag::REle {
                    if !check_trimmed(kana.as_str()) {
                        return Err(ParseError { kind: ErrorKind::UntrimmedKana, offset });
                    }
                    if kana.as_str().is_empty() {
                        return Err(ParseError { kind: ErrorKind::EmptyKana, offset });
                    }
                    return Ok(ReadingEntry { kana, no_kanji, related_kanji, info, priority });
                }
                cursor = None;
            },
            TokenKind::Text { raw } => {
                match cursor {
                    Some(ReadingField::Reb) => {
                        match stream.unescape(raw.as_slice()) {
                            Some(text) => {
                                kana = text;
                            },
                            None => {
                                return Err(ParseError { kind: ErrorKind::Escape, offset });
                            },
                        }
                    },
                    Some(ReadingField::ReRestr) => {
                        match stream.unescape(raw.as_slice()) {
                            Some(text) => {
                                let ghost before = related_kanji;
                                related_kanji.push(text);
                                proof {
                                    lemma_deep_view_push(before, related_kanji, text);
                                }
                            },
                            None => {
                                return Err(ParseError { kind: ErrorKind::Escape, offset });
                            },
                        }
                    },
                    Some(ReadingField::ReInf) => {
                        match parse_single_entity(raw.as_slice(), stream) {
                            Ok(text) => {
                                info.push(text);
                            },
                            Err(e) => {
                                return Err(e);
                            },
                        }
                    },
                    Some(ReadingField::RePri) => {
                        match stream.unescape(raw.as_slice()) {
                            Some(text) => {
                                priority.push(text);
                            },
                            None => {
                                return Err(ParseError { kind: ErrorKind::Escape, offset });
                            },
                        }
                    },
                    None => {
                        warn_unexpected_text(warnings, raw, offset, Scope::Reading);
                    },
                }
            },
            TokenKind::Eof => {
                return Err(ParseError { kind: ErrorKind::UnexpectedEnd, offset });
            },
            TokenKind::Other => {},
            TokenKind::Invalid => {
                return Err(ParseError { kind: ErrorKind::Markup, offset });
            },
        }
    }
}

} // verus!

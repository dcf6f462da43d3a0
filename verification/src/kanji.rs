//! The kanji spellings of a record: `k_ele` elements.

use crate::entity::{entity_body, is_entity, parse_single_entity};
use crate::error::{ErrorKind, ParseError, Scope, Warning, WarningModel};
use crate::outcome::{
    fail, logged, unexpected_text, unknown_tag, warn_unexpected_text, warn_unknown_tag, Outcome,
    Step,
};
use crate::schema::{classify, tag_of, Tag};
use crate::tags::{InfoVec, PriorityVec, TagVec};
use crate::text::{check_trimmed, is_space, is_trimmed};
use crate::token::{decoded, unescaped, TokenKind, TokenKindModel, TokenStream, XmlEvent};
use vstd::prelude::*;

verus! {

/// One kanji spelling of a record.
#[derive(Debug)]
pub struct KanjiEntry {
    /// The headword.
    pub kanji: String,
    /// Coded notes on the spelling.
    pub info: InfoVec,
    /// Priority codes.
    pub priority: PriorityVec,
}

/// The mathematical content of a [`KanjiEntry`].
pub struct KanjiModel {
    pub kanji: Seq<char>,
    pub info: Seq<Seq<char>>,
    pub priority: Seq<Seq<char>>,
}

impl KanjiModel {
    /// What holds of every spelling that the parser lets through: the
    /// headword is not empty and has no white space around it.
    pub open spec fn wf(self) -> bool {
        self.kanji.len() > 0 && is_trimmed(self.kanji)
    }
}

impl View for KanjiEntry {
    type V = KanjiModel;

    open spec fn view(&self) -> KanjiModel {
        KanjiModel { kanji: self.kanji@, info: self.info@, priority: self.priority@ }
    }
}

impl DeepView for KanjiEntry {
    type V = KanjiModel;

    open spec fn deep_view(&self) -> KanjiModel {
        self@
    }
}

/// The child of `k_ele` whose text is awaited.
#[derive(Clone, Copy, Debug, PartialEq, Eq, Structural)]
pub enum KanjiField {
    Keb,
    KeInf,
    KePri,
}

/// The state of the parser between two events.
pub struct KanjiState {
    pub entry: KanjiModel,
    pub cursor: Option<KanjiField>,
}

/// The state in which the parser starts: nothing read, no field open.
pub open spec fn kanji_start() -> KanjiState {
    KanjiState {
        entry: KanjiModel { kanji: Seq::empty(), info: Seq::empty(), priority: Seq::empty() },
        cursor: None,
    }
}

/// The check made when the element closes.
pub open spec fn kanji_finish(entry: KanjiModel, offset: usize) -> Result<KanjiModel, ParseError> {
    if !is_trimmed(entry.kanji) {
        Err(ParseError { kind: ErrorKind::UntrimmedKanji, offset })
    } else if entry.kanji.len() == 0 {
        Err(ParseError { kind: ErrorKind::EmptyKanji, offset })
    } else {
        Ok(entry)
    }
}

/// What one event does to the parser.
///
/// An opening tag of a known child moves the cursor there; of an unknown one
/// it gives a warning. The closing tag of the element ends the parser; any
/// other closing tag resets the cursor. Text goes to the field under the
/// cursor: the headword and the priority codes unescaped, the notes as coded
/// values; with no field open it gives a warning.
pub open spec fn kanji_step(st: KanjiState, ev: XmlEvent) -> Step<KanjiState, KanjiModel> {
    match ev.kind {
        TokenKindModel::Start { name, content } => match tag_of(name) {
            Tag::Keb => Step::Go(KanjiState { cursor: Some(KanjiField::Keb), ..st }, None),
            Tag::KeInf => Step::Go(KanjiState { cursor: Some(KanjiField::KeInf), ..st }, None),
            Tag::KePri => Step::Go(KanjiState { cursor: Some(KanjiField::KePri), ..st }, None),
            _ => Step::Go(st, Some(unknown_tag(Scope::Kanji, ev.offset, name))),
        },
        TokenKindModel::End { name } => if tag_of(name) == Tag::KEle {
            Step::Done(kanji_finish(st.entry, ev.offset))
        } else {
            Step::Go(KanjiState { cursor: None, ..st }, None)
        },
        TokenKindModel::Text { raw } => match st.cursor {
            Some(KanjiField::Keb) => match unescaped(ev.codec, raw) {
                Some(text) => Step::Go(
                    KanjiState { entry: KanjiModel { kanji: text, ..st.entry }, ..st },
                    None,
                ),
                None => fail(ErrorKind::Escape, ev.offset),
            },
            Some(KanjiField::KeInf) => if is_entity(raw) {
                Step::Go(
                    KanjiState {
                        entry: KanjiModel {
                            info: st.entry.info.push(decoded(ev.codec, entity_body(raw))),
                            ..st.entry
                        },
                        ..st
                    },
                    None,
                )
            } else {
                fail(ErrorKind::MalformedEntity, ev.offset)
            },
            Some(KanjiField::KePri) => match unescaped(ev.codec, raw) {
                Some(text) => Step::Go(
                    KanjiState {
                        entry: KanjiModel { priority: st.entry.priority.push(text), ..st.entry },
                        ..st
                    },
                    None,
                ),
                None => fail(ErrorKind::Escape, ev.offset),
            },
            None => Step::Go(st, Some(unexpected_text(Scope::Kanji, ev.offset, raw))),
        },
        TokenKindModel::Eof => fail(ErrorKind::UnexpectedEnd, ev.offset),
        TokenKindModel::Other => Step::Go(st, None),
        TokenKindModel::Invalid => fail(ErrorKind::Markup, ev.offset),
    }
}

/// The run of the parser from state `st` over `events`, with the warnings
/// of earlier parsers in `log`. It reads up to the event that ends it; the
/// end of the document is not taken off.
pub open spec fn kanji_run(events: Seq<XmlEvent>, st: KanjiState, log: Seq<WarningModel>) -> Outcome<
    KanjiModel,
>
    decreases events.len(),
{
    if events.len() == 0 {
        Outcome {
            result: Err(ParseError { kind: ErrorKind::UnexpectedEnd, offset: 0 }),
            rest: events,
            position: 0,
            warnings: log,
        }
    } else {
        match kanji_step(st, events[0]) {
            Step::Go(next, warning) => kanji_run(events.skip(1), next, logged(log, warning)),
            Step::Done(result) => Outcome {
                result,
                rest: if events[0].kind is Eof {
                    events
                } else {
                    events.skip(1)
                },
                position: events[0].offset,
                warnings: log,
            },
        }
    }
}

/// A run leaves no more events than it was given.
pub proof fn lemma_kanji_rest(events: Seq<XmlEvent>, st: KanjiState, log: Seq<WarningModel>)
    ensures
        kanji_run(events, st, log).rest.len() <= events.len(),
    decreases events.len(),
{
    if events.len() > 0 {
        match kanji_step(st, events[0]) {
            Step::Go(next, warning) => lemma_kanji_rest(events.skip(1), next, logged(log, warning)),
            Step::Done(result) => {},
        }
    }
}

/// A run that succeeds gives a well-formed spelling: a headword with white
/// space around it, or an empty one, never passes.
pub proof fn lemma_kanji_wf(events: Seq<XmlEvent>, st: KanjiState, log: Seq<WarningModel>)
    ensures
        kanji_run(events, st, log).result matches Ok(entry) ==> entry.wf(),
    decreases events.len(),
{
    if events.len() > 0 {
        match kanji_step(st, events[0]) {
            Step::Go(next, warning) => lemma_kanji_wf(events.skip(1), next, logged(log, warning)),
            Step::Done(result) => {},
        }
    }
}

/// The final check lets a spelling through if and only if its headword is
/// not empty and has no white space at either end.
pub proof fn lemma_kanji_refused(entry: KanjiModel, offset: usize)
    ensures
        kanji_finish(entry, offset) is Ok <==> entry.wf(),
        entry.kanji.len() > 0 && (is_space(entry.kanji[0]) || is_space(entry.kanji.last()))
            ==> kanji_finish(entry, offset) == Err::<KanjiModel, ParseError>(
            ParseError { kind: ErrorKind::UntrimmedKanji, offset },
        ),
{
}

/// Reads one `k_ele` element, whose opening tag has just been read, up to
/// its closing tag.
pub fn parse_k_ele(stream: &mut TokenStream, warnings: &mut Vec<Warning>) -> (r: Result<
    KanjiEntry,
    ParseError,
>)
    ensures
        ({
            let out = kanji_run(
                old(stream).pending(),
                kanji_start(),
                (*old(warnings)).deep_view(),
            );
            &&& final(stream).pending() == out.rest
            &&& final(stream).position() == out.position
            &&& (*final(warnings)).deep_view() == out.warnings
            &&& match r {
                Ok(entry) => out.result == Ok::<KanjiModel, ParseError>(entry@) && entry@.wf(),
                Err(e) => out.result == Err::<KanjiModel, ParseError>(e),
            }
        }),
{
    let ghost out = kanji_run(stream.pending(), kanji_start(), (*warnings).deep_view());
    let mut kanji = String::new();
    let mut info = TagVec::new();
    let mut priority = TagVec::new();
    let mut cursor: Option<KanjiField> = None;
    loop
        invariant
            out == kanji_run(
                old(stream).pending(),
                kanji_start(),
                (*old(warnings)).deep_view(),
            ),
            out == kanji_run(
                stream.pending(),
                KanjiState {
                    entry: KanjiModel { kanji: kanji@, info: info@, priority: priority@ },
                    cursor,
                },
                (*warnings).deep_view(),
            ),
        decreases stream.pending().len(),
    {
        let token = stream.next_token();
        let offset = token.offset;
        match token.kind {
            TokenKind::Start { name, content } => {
                match classify(name.as_slice()) {
                    Tag::Keb => {
                        cursor = Some(KanjiField::Keb);
                    },
                    Tag::KeInf => {
                        cursor = Some(KanjiField::KeInf);
                    },
                    Tag::KePri => {
                        cursor = Some(KanjiField::KePri);
                    },
                    _ => {
                        warn_unknown_tag(warnings, name, offset, Scope::Kanji);
                    },
                }
            },
            TokenKind::End { name } => {
                if classify(name.as_slice()) == Tag::KEle {
                    if !check_trimmed(kanji.as_str()) {
                        return Err(ParseError { kind: ErrorKind::UntrimmedKanji, offset });
                    }
                    if kanji.as_str().is_empty() {
                        return Err(ParseError { kind: ErrorKind::EmptyKanji, offset });
                    }
                    return Ok(KanjiEntry { kanji, info, priority });
                }
                cursor = None;
            },
            TokenKind::Text { raw } => {
                match cursor {
                    Some(KanjiField::Keb) => {
                        match stream.unescape(raw.as_slice()) {
                            Some(text) => {
                                kanji = text;
                            },
                            None => {
                                return Err(ParseError { kind: ErrorKind::Escape, offset });
                            },
                        }
                    },
                    Some(KanjiField::KeInf) => {
                        match parse_single_entity(raw.as_slice(), stream) {
                            Ok(text) => {
                                info.push(text);
                            },
                            Err(e) => {
                                return Err(e);
                            },
                        }
                    },
                    Some(KanjiField::KePri) => {
                        match stream.unescape(raw.as_slice()) {
                            Some(text) => {
                                priority.push(text);
                            },
                            None => {
                                return Err(ParseError { kind: ErrorKind::Escape, offset });
                            },
                        }
                    },
                    None => {
                        warn_unexpected_text(warnings, raw, offset, Scope::Kanji);
                    },
                }
            },
            TokenKind::Eof => {
                return Err(ParseError { kind: ErrorKind::UnexpectedEnd, offset });
            },
            TokenKind::Other => {},
            TokenKind::Invalid => {
                return Err(ParseError { kind: ErrorKind::Markup, offset });
            },
        }
    }
}

} // verus!

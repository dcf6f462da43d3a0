//! Records: `entry` elements, each with its identifier, kanji spellings,
//! readings and senses.

use crate::error::{ErrorKind, ParseError, Scope, Warning, WarningModel};
use crate::kanji::{
    kanji_run, kanji_start, lemma_kanji_rest, lemma_kanji_wf, parse_k_ele, KanjiEntry, KanjiModel,
};
use crate::outcome::{
    lemma_deep_view_empty, lemma_deep_view_push, unknown_tag, warn_unknown_tag, Outcome,
};
use crate::reading::{
    lemma_reading_rest, lemma_reading_wf, parse_r_ele, reading_run, reading_start, ReadingEntry,
    ReadingModel,
};
use crate::schema::{classify, tag_of, Tag};
use crate::sense::{lemma_sense_rest, parse_sense, sense_run, sense_start, Sense, SenseModel};
use crate::text::{chars_of, parse_unsigned, unsigned_of};
use crate::token::{unescaped, TokenKind, TokenKindModel, TokenStream, XmlEvent};
use vstd::prelude::*;

verus! {

/// One record of the dictionary: a headword group.
#[derive(Debug)]
pub struct Entry {
    /// The identifier, never zero.
    pub id: u32,
    /// The kanji spellings, possibly none.
    pub kanji_entries: Vec<KanjiEntry>,
    /// The readings, at least one.
    pub reading_entries: Vec<ReadingEntry>,
    /// The senses, possibly none.
    pub senses: Vec<Sense>,
}

/// The mathematical content of an [`Entry`].
pub struct EntryModel {
    pub id: u32,
    pub kanji_entries: Seq<KanjiModel>,
    pub reading_entries: Seq<ReadingModel>,
    pub senses: Seq<SenseModel>,
}

impl EntryModel {
    /// What holds of every record that the parser lets through: it has an
    /// identifier other than zero and at least one reading, and its kanji
    /// spellings and readings are well formed.
    pub open spec fn wf(self) -> bool {
        &&& self.id != 0
        &&& self.reading_entries.len() > 0
        &&& forall|i: int| 0 <= i < self.kanji_entries.len() ==> (#[trigger] self.kanji_entries[i]).wf()
        &&& forall|i: int|
            0 <= i < self.reading_entries.len() ==> (#[trigger] self.reading_entries[i]).wf()
    }
}

impl View for Entry {
    type V = EntryModel;

    open spec fn view(&self) -> EntryModel {
        EntryModel {
            id: self.id,
            kanji_entries: self.kanji_entries.deep_view(),
            reading_entries: self.reading_entries.deep_view(),
            senses: self.senses.deep_view(),
        }
    }
}

impl DeepView for Entry {
    type V = EntryModel;

    open spec fn deep_view(&self) -> EntryModel {
        self@
    }
}

/// The state of the parser between two events.
pub struct EntryState {
    pub entry: EntryModel,
    /// Whether the identifier field is open.
    pub id_open: bool,
}

/// The state in which the parser starts: nothing read, no identifier.
pub open spec fn entry_start() -> EntryState {
    EntryState {
        entry: EntryModel {
            id: 0,
            kanji_entries: Seq::empty(),
            reading_entries: Seq::empty(),
            senses: Seq::empty(),
        },
        id_open: false,
    }
}

/// The check made when the record closes: it must have an identifier other
/// than zero, and then at least one reading.
pub open spec fn entry_finish(entry: EntryModel, offset: usize) -> Result<EntryModel, ParseError> {
    if entry.id == 0 {
        Err(ParseError { kind: ErrorKind::MissingId, offset })
    } else if entry.reading_entries.len() == 0 {
        Err(ParseError { kind: ErrorKind::NoReadings, offset })
    } else {
        Ok(entry)
    }
}

/// The identifier that a text of the identifier field gives.
pub open spec fn entry_id(raw: Seq<u8>, offset: usize, codec: int) -> Result<u32, ParseError> {
    match unescaped(codec, raw) {
        None => Err(ParseError { kind: ErrorKind::Escape, offset }),
        Some(text) => match unsigned_of(text, u32::MAX as nat) {
            None => Err(ParseError { kind: ErrorKind::InvalidId, offset }),
            Some(n) => Ok(n as u32),
        },
    }
}

/// A run that ends at the first of `events`, which is taken off.
pub open spec fn stop_at<T>(
    events: Seq<XmlEvent>,
    result: Result<T, ParseError>,
    log: Seq<WarningModel>,
) -> Outcome<T> {
    Outcome { result, rest: events.skip(1), position: events[0].offset, warnings: log }
}

/// A run that an element parser inside it has ended with an error.
pub open spec fn stop_inside<S, T>(sub: Outcome<S>, error: ParseError, log: Seq<WarningModel>) -> Outcome<
    T,
> {
    Outcome { result: Err(error), rest: sub.rest, position: sub.position, warnings: log }
}

/// The run of the parser from state `st` over `events`, with the warnings
/// of earlier parsers in `log`.
///
/// The identifier field may open only when it is closed, and close only when
/// it is open; while it is open, a text gives the identifier. The opening
/// tag of a kanji spelling, a reading or a sense hands the events that follow
/// to that element's parser, whose value joins the record, and the run goes
/// on behind what that parser read. Any other opening tag gives a warning.
/// The closing tag of the record ends the run with the final check. The end
/// of the document, which is not taken off, and malformed markup are errors.
pub open spec fn entry_run(events: Seq<XmlEvent>, st: EntryState, log: Seq<WarningModel>) -> Outcome<
    EntryModel,
>
    decreases events.len(),
{
    if events.len() == 0 {
        Outcome {
            result: Err(ParseError { kind: ErrorKind::UnexpectedEnd, offset: 0 }),
            rest: events,
            position: 0,
            warnings: log,
        }
    } else {
        let offset = events[0].offset;
        let rest = events.skip(1);
        match events[0].kind {
            TokenKindModel::Start { name, content } => match tag_of(name) {
                Tag::EntSeq => if st.id_open {
                    stop_at(events, Err(ParseError { kind: ErrorKind::NestedId, offset }), log)
                } else {
                    entry_run(rest, EntryState { id_open: true, ..st }, log)
                },
                Tag::KEle => {
                    let sub = kanji_run(rest, kanji_start(), log);
                    proof {
                        lemma_kanji_rest(rest, kanji_start(), log);
                    }
                    match sub.result {
                        Ok(kanji) => entry_run(
                            sub.rest,
                            EntryState {
                                entry: EntryModel {
                                    kanji_entries: st.entry.kanji_entries.push(kanji),
                                    ..st.entry
                                },
                                ..st
                            },
                            sub.warnings,
                        ),
                        Err(e) => stop_inside(sub, e, sub.warnings),
                    }
                },
                Tag::REle => {
                    let sub = reading_run(rest, reading_start(), log);
                    proof {
                        lemma_reading_rest(rest, reading_start(), log);
                    }
                    match sub.result {
                        Ok(reading) => entry_run(
                            sub.rest,
                            EntryState {
                                entry: EntryModel {
                                    reading_entries: st.entry.reading_entries.push(reading),
                                    ..st.entry
                                },
                                ..st
                            },
                            sub.warnings,
                        ),
                        Err(e) => stop_inside(sub, e, sub.warnings),
                    }
                },
                Tag::Sense => {
                    let sub = sense_run(rest, sense_start());
                    proof {
                        lemma_sense_rest(rest, sense_start());
                    }
                    match sub.result {
                        Ok(sense) => entry_run(
                            sub.rest,
                            EntryState {
                                entry: EntryModel {
                                    senses: st.entry.senses.push(sense),
                                    ..st.entry
                                },
                                ..st
                            },
                            log,
                        ),
                        Err(e) => stop_inside(sub, e, log),
                    }
                },
                _ => entry_run(rest, st, log.push(unknown_tag(Scope::Entry, offset, name))),
            },
            TokenKindModel::End { name } => match tag_of(name) {
                Tag::Entry => stop_at(events, entry_finish(st.entry, offset), log),
                Tag::EntSeq => if st.id_open {
                    entry_run(rest, EntryState { id_open: false, ..st }, log)
                } else {
                    stop_at(events, Err(ParseError { kind: ErrorKind::MismatchedId, offset }), log)
                },
                _ => entry_run(rest, st, log),
            },
            TokenKindModel::Text { raw } => if st.id_open {
                match entry_id(raw, offset, events[0].codec) {
                    Ok(id) => entry_run(
                        rest,
                        EntryState { entry: EntryModel { id, ..st.entry }, ..st },
                        log,
                    ),
                    Err(e) => stop_at(events, Err(e), log),
                }
            } else {
                entry_run(rest, st, log)
            },
            TokenKindModel::Eof => Outcome {
                result: Err(ParseError { kind: ErrorKind::UnexpectedEnd, offset }),
                rest: events,
                position: offset,
                warnings: log,
            },
            TokenKindModel::Other => entry_run(rest, st, log),
            TokenKindModel::Invalid => stop_at(
                events,
                Err(ParseError { kind: ErrorKind::Markup, offset }),
                log,
            ),
        }
    }
}

/// A run leaves no more events than it was given.
pub proof fn lemma_entry_rest(events: Seq<XmlEvent>, st: EntryState, log: Seq<WarningModel>)
    ensures
        entry_run(events, st, log).rest.len() <= events.len(),
    decreases events.len(),
{
    if events.len() > 0 {
        let offset = events[0].offset;
        let rest = events.skip(1);
        match events[0].kind {
            TokenKindModel::Start { name, content } => match tag_of(name) {
                Tag::EntSeq => if !st.id_open {
                    lemma_entry_rest(rest, EntryState { id_open: true, ..st }, log);
                },
                Tag::KEle => {
                    let sub = kanji_run(rest, kanji_start(), log);
                    lemma_kanji_rest(rest, kanji_start(), log);
                    match sub.result {
                        Ok(kanji) => lemma_entry_rest(
                            sub.rest,
                            EntryState {
                                entry: EntryModel {
                                    kanji_entries: st.entry.kanji_entries.push(kanji),
                                    ..st.entry
                                },
                                ..st
                            },
                            sub.warnings,
                        ),
                        Err(e) => {},
                    }
                },
                Tag::REle => {
                    let sub = reading_run(rest, reading_start(), log);
                    lemma_reading_rest(rest, reading_start(), log);
                    match sub.result {
                        Ok(reading) => lemma_entry_rest(
                            sub.rest,
                            EntryState {
                                entry: EntryModel {
                                    reading_entries: st.entry.reading_entries.push(reading),
                                    ..st.entry
                                },
                                ..st
                            },
                            sub.warnings,
                        ),
                        Err(e) => {},
                    }
                },
                Tag::Sense => {
                    let sub = sense_run(rest, sense_start());
                    lemma_sense_rest(rest, sense_start());
                    match sub.result {
                        Ok(sense) => lemma_entry_rest(
                            sub.rest,
                            EntryState {
                                entry: EntryModel {
                                    senses: st.entry.senses.push(sense),
                                    ..st.entry
                                },
                                ..st
                            },
                            log,
                        ),
                        Err(e) => {},
                    }
                },
                _ => lemma_entry_rest(rest, st, log.push(unknown_tag(Scope::Entry, offset, name))),
            },
            TokenKindModel::End { name } => match tag_of(name) {
                Tag::Entry => {},
                Tag::EntSeq => if st.id_open {
                    lemma_entry_rest(rest, EntryState { id_open: false, ..st }, log);
                },
                _ => lemma_entry_rest(rest, st, log),
            },
            TokenKindModel::Text { raw } => if st.id_open {
                match entry_id(raw, offset, events[0].codec) {
                    Ok(id) => lemma_entry_rest(
                        rest,
                        EntryState { entry: EntryModel { id, ..st.entry }, ..st },
                        log,
                    ),
                    Err(e) => {},
                }
            } else {
                lemma_entry_rest(rest, st, log);
            },
            TokenKindModel::Eof => {},
            TokenKindModel::Other => lemma_entry_rest(rest, st, log),
            TokenKindModel::Invalid => {},
        }
    }
}

/// The final check lets a record through if and only if its identifier is
/// not zero and it has a reading; the kanji spellings and the senses play no
/// part. The identifier is looked at first.
pub proof fn lemma_entry_refused(entry: EntryModel, offset: usize)
    ensures
        entry.id == 0 ==> entry_finish(entry, offset) == Err::<EntryModel, ParseError>(
            ParseError { kind: ErrorKind::MissingId, offset },
        ),
        entry.id != 0 && entry.reading_entries.len() == 0 ==> entry_finish(entry, offset) == Err::<
            EntryModel,
            ParseError,
        >(ParseError { kind: ErrorKind::NoReadings, offset }),
        entry.id != 0 && entry.reading_entries.len() > 0 ==> entry_finish(entry, offset) == Ok::<
            EntryModel,
            ParseError,
        >(entry),
{
}

/// Whether the kanji spellings and the readings gathered so far are well
/// formed.
pub open spec fn parts_wf(entry: EntryModel) -> bool {
    &&& forall|i: int| 0 <= i < entry.kanji_entries.len() ==> (#[trigger] entry.kanji_entries[i]).wf()
    &&& forall|i: int|
        0 <= i < entry.reading_entries.len() ==> (#[trigger] entry.reading_entries[i]).wf()
}

/// A run that succeeds gives a well-formed record: one with the identifier
/// zero, or without a reading, never passes, whatever else it holds.
pub proof fn lemma_entry_wf(events: Seq<XmlEvent>, st: EntryState, log: Seq<WarningModel>)
    requires
        parts_wf(st.entry),
    ensures
        entry_run(events, st, log).result matches Ok(entry) ==> entry.wf(),
    decreases events.len(),
{
    if events.len() > 0 {
        let offset = events[0].offset;
        let rest = events.skip(1);
        match events[0].kind {
            TokenKindModel::Start { name, content } => match tag_of(name) {
                Tag::EntSeq => if !st.id_open {
                    lemma_entry_wf(rest, EntryState { id_open: true, ..st }, log);
                },
                Tag::KEle => {
                    let sub = kanji_run(rest, kanji_start(), log);
                    lemma_kanji_rest(rest, kanji_start(), log);
                    lemma_kanji_wf(rest, kanji_start(), log);
                    match sub.result {
                        Ok(kanji) => lemma_entry_wf(
                            sub.rest,
                            EntryState {
                                entry: EntryModel {
                                    kanji_entries: st.entry.kanji_entries.push(kanji),
                                    ..st.entry
                                },
                                ..st
                            },
                            sub.warnings,
                        ),
                        Err(e) => {},
                    }
                },
                Tag::REle => {
                    let sub = reading_run(rest, reading_start(), log);
                    lemma_reading_rest(rest, reading_start(), log);
                    lemma_reading_wf(rest, reading_start(), log);
                    match sub.result {
                        Ok(reading) => lemma_entry_wf(
                            sub.rest,
                            EntryState {
                                entry: EntryModel {
                                    reading_entries: st.entry.reading_entries.push(reading),
                                    ..st.entry
                                },
                                ..st
                            },
                            sub.warnings,
                        ),
                        Err(e) => {},
                    }
                },
                Tag::Sense => {
                    let sub = sense_run(rest, sense_start());
                    lemma_sense_rest(rest, sense_start());
                    match sub.result {
                        Ok(sense) => lemma_entry_wf(
                            sub.rest,
                            EntryState {
                                entry: EntryModel {
                                    senses: st.entry.senses.push(sense),
                                    ..st.entry
                                },
                                ..st
                            },
                            log,
                        ),
                        Err(e) => {},
                    }
                },
                _ => lemma_entry_wf(rest, st, log.push(unknown_tag(Scope::Entry, offset, name))),
            },
            TokenKindModel::End { name } => match tag_of(name) {
                Tag::Entry => {},
                Tag::EntSeq => if st.id_open {
                    lemma_entry_wf(rest, EntryState { id_open: false, ..st }, log);
                },
                _ => lemma_entry_wf(rest, st, log),
            },
            TokenKindModel::Text { raw } => if st.id_open {
                match entry_id(raw, offset, events[0].codec) {
                    Ok(id) => lemma_entry_wf(
                        rest,
                        EntryState { entry: EntryModel { id, ..st.entry }, ..st },
                        log,
                    ),
                    Err(e) => {},
                }
            } else {
                lemma_entry_wf(rest, st, log);
            },
            TokenKindModel::Eof => {},
            TokenKindModel::Other => lemma_entry_wf(rest, st, log),
            TokenKindModel::Invalid => {},
        }
    }
}

/// Reads the identifier out of a text of the identifier field.
pub fn read_id(raw: &[u8], stream: &TokenStream) -> (r: Result<u32, ParseError>)
    ensures
        r == entry_id(raw@, stream.position(), stream.codec()),
{
    let offset = stream.buffer_position();
    match stream.unescape(raw) {
        None => Err(ParseError { kind: ErrorKind::Escape, offset }),
        Some(text) => {
            let chars = chars_of(text.as_str());
            match parse_unsigned(&chars, u32::MAX) {
                None => Err(ParseError { kind: ErrorKind::InvalidId, offset }),
                Some(n) => Ok(n),
            }
        },
    }
}

/// Reads one `entry` element, whose opening tag has just been read, up to
/// its closing tag.
pub fn parse_entry(stream: &mut TokenStream, warnings: &mut Vec<Warning>) -> (r: Result<
    Entry,
    ParseError,
>)
    ensures
        ({
            let out = entry_run(
                old(stream).pending(),
                entry_start(),
                (*old(warnings)).deep_view(),
            );
            &&& final(stream).pending() == out.rest
            &&& final(stream).position() == out.position
            &&& (*final(warnings)).deep_view() == out.warnings
            &&& match r {
                Ok(entry) => out.result == Ok::<EntryModel, ParseError>(entry@) && entry@.wf(),
                Err(e) => out.result == Err::<EntryModel, ParseError>(e),
            }
        }),
{
    let ghost out = entry_run(stream.pending(), entry_start(), (*warnings).deep_view());
    let mut id: u32 = 0;
    let mut kanji_entries: Vec<KanjiEntry> = Vec::new();
    let mut reading_entries: Vec<ReadingEntry> = Vec::new();
    let mut senses: Vec<Sense> = Vec::new();
    let mut ent_seq = false;
    proof {
        lemma_deep_view_empty(kanji_entries);
        lemma_deep_view_empty(reading_entries);
        lemma_deep_view_empty(senses);
    }
    loop
        invariant
            out == entry_run(old(stream).pending(), entry_start(), (*old(warnings)).deep_view()),
            out == entry_run(
                stream.pending(),
                EntryState {
                    entry: EntryModel {
                        id,
                        kanji_entries: kanji_entries.deep_view(),
                        reading_entries: reading_entries.deep_view(),
                        senses: senses.deep_view(),
                    },
                    id_open: ent_seq,
                },
                (*warnings).deep_view(),
            ),
            forall|i: int|
                0 <= i < kanji_entries.deep_view().len() ==> (#[trigger] kanji_entries.deep_view()[i]).wf(),
            forall|i: int|
                0 <= i < reading_entries.deep_view().len()
                    ==> (#[trigger] reading_entries.deep_view()[i]).wf(),
        decreases stream.pending().len(),
    {
        let token = stream.next_token();
        let offset = token.offset;
        let ghost rest = stream.pending();
        let ghost log = (*warnings).deep_view();
        match token.kind {
            TokenKind::Start { name, content } => {
                match classify(name.as_slice()) {
                    Tag::EntSeq => {
                        if ent_seq {
                            return Err(ParseError { kind: ErrorKind::NestedId, offset });
                        }
                        ent_seq = true;
                    },
                    Tag::KEle => {
                        proof {
                            lemma_kanji_rest(rest, kanji_start(), log);
                        }
                        match parse_k_ele(stream, warnings) {
                            Ok(kanji) => {
                                let ghost before = kanji_entries;
                                kanji_entries.push(kanji);
                                proof {
                                    lemma_deep_view_push(before, kanji_entries, kanji);
                                }
                            },
                            Err(e) => {
                                return Err(e);
                            },
                        }
                    },
                    Tag::REle => {
                        proof {
                            lemma_reading_rest(rest, reading_start(), log);
                        }
                        match parse_r_ele(stream, warnings) {
                            Ok(reading) => {
                                let ghost before = reading_entries;
                                reading_entries.push(reading);
                                proof {
                                    lemma_deep_view_push(before, reading_entries, reading);
                                }
                            },
                            Err(e) => {
                                return Err(e);
                            },
                        }
                    },
                    Tag::Sense => {
                        proof {
                            lemma_sense_rest(rest, sense_start());
                        }
                        match parse_sense(stream) {
                            Ok(sense) => {
                                let ghost before = senses;
                                senses.push(sense);
                                proof {
                                    lemma_deep_view_push(before, senses, sense);
                                }
                            },
                            Err(e) => {
                                return Err(e);
                            },
                        }
                    },
                    _ => {
                        warn_unknown_tag(warnings, name, offset, Scope::Entry);
                    },
                }
            },
            TokenKind::End { name } => {
                match classify(name.as_slice()) {
                    Tag::Entry => {
                        if id == 0 {
                            return Err(ParseError { kind: ErrorKind::MissingId, offset });
                        }
                        if reading_entries.len() == 0 {
                            return Err(ParseError { kind: ErrorKind::NoReadings, offset });
                        }
                        return Ok(Entry { id, kanji_entries, reading_entries, senses });
                    },
                    Tag::EntSeq => {
                        if !ent_seq {
                            return Err(ParseError { kind: ErrorKind::MismatchedId, offset });
                        }
                        ent_seq = false;
                    },
                    _ => {},
                }
            },
            TokenKind::Text { raw } => {
                if ent_seq {
                    match read_id(raw.as_slice(), stream) {
                        Ok(n) => {
                            id = n;
                        },
                        Err(e) => {
                            return Err(e);
                        },
                    }
                }
            },
            TokenKind::Eof => {
                return Err(ParseError { kind: ErrorKind::UnexpectedEnd, offset });
            },
            TokenKind::Other => {},
            TokenKind::Invalid => {
                return Err(ParseError { kind: ErrorKind::Markup, offset });
            },
        }
    }
}

} // verus!

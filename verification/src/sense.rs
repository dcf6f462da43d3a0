//! The senses of a record: `sense` elements.

use crate::entity::{entity_body, is_entity, parse_single_entity};
use crate::error::{ErrorKind, ParseError};
use crate::outcome::{fail, lemma_deep_view_empty, lemma_deep_view_push, Outcome, Step};
use crate::schema::{classify, is_language_key, names_language, tag_of, Tag};
use crate::text::text_of_utf8;
use crate::token::{
    attribute_models, attributes, attributes_of, decoded, unescaped, Attribute, AttributeModel,
    TokenKind, TokenKindModel, TokenStream, XmlEvent,
};
use crate::xref::{cross_reference_of, parse_cross_ref, CrossReference, CrossReferenceModel};
use vstd::prelude::*;
use vstd::utf8::{decode_utf8, valid_utf8};

verus! {

/// One sense of a record.
#[derive(Debug, PartialEq)]
pub struct Sense {
    /// The kanji spellings that the sense is restricted to.
    pub only_kanji: Vec<String>,
    /// The readings that the sense is restricted to.
    pub only_readings: Vec<String>,
    /// Parts of speech.
    pub part_of_speech: Vec<String>,
    /// Cross-references to related words.
    pub cross_refs: Vec<CrossReference>,
    /// Cross-references to antonyms.
    pub antonyms: Vec<CrossReference>,
    /// Fields of application.
    pub field: Vec<String>,
    /// Other coded notes.
    pub misc: Vec<String>,
    /// The translations, in the order of the document.
    pub glosses: Vec<String>,
    /// The language of the sense. The schema writes it on every gloss, and
    /// all glosses of a sense agree on it, so it is kept once.
    pub lang: Option<String>,
}

/// The mathematical content of a [`Sense`].
pub struct SenseModel {
    pub only_kanji: Seq<Seq<char>>,
    pub only_readings: Seq<Seq<char>>,
    pub part_of_speech: Seq<Seq<char>>,
    pub cross_refs: Seq<CrossReferenceModel>,
    pub antonyms: Seq<CrossReferenceModel>,
    pub field: Seq<Seq<char>>,
    pub misc: Seq<Seq<char>>,
    pub glosses: Seq<Seq<char>>,
    pub lang: Option<Seq<char>>,
}

/// The text of an optional string.
pub open spec fn text_model(text: Option<String>) -> Option<Seq<char>> {
    match text {
        Some(s) => Some(s@),
        None => None,
    }
}

impl View for Sense {
    type V = SenseModel;

    open spec fn view(&self) -> SenseModel {
        SenseModel {
            only_kanji: self.only_kanji.deep_view(),
            only_readings: self.only_readings.deep_view(),
            part_of_speech: self.part_of_speech.deep_view(),
            cross_refs: self.cross_refs.deep_view(),
            antonyms: self.antonyms.deep_view(),
            field: self.field.deep_view(),
            misc: self.misc.deep_view(),
            glosses: self.glosses.deep_view(),
            lang: text_model(self.lang),
        }
    }
}

impl DeepView for Sense {
    type V = SenseModel;

    open spec fn deep_view(&self) -> SenseModel {
        self@
    }
}

/// The child of `sense` whose text is awaited.
#[derive(Clone, Copy, Debug, PartialEq, Eq, Structural)]
pub enum SenseField {
    SenseTagKanji,
    SenseTagReading,
    PartOfSpeech,
    CrossReference,
    Antonym,
    Field,
    Misc,
    Gloss,
}

/// The state of the parser between two events.
pub struct SenseState {
    pub sense: SenseModel,
    pub cursor: Option<SenseField>,
}

/// The state in which the parser starts: nothing read, no field open.
pub open spec fn sense_start() -> SenseState {
    SenseState {
        sense: SenseModel {
            only_kanji: Seq::empty(),
            only_readings: Seq::empty(),
            part_of_speech: Seq::empty(),
            cross_refs: Seq::empty(),
            antonyms: Seq::empty(),
            field: Seq::empty(),
            misc: Seq::empty(),
            glosses: Seq::empty(),
            lang: None,
        },
        cursor: None,
    }
}

/// The language of a sense after the attributes of one more gloss.
///
/// Each language marker among them, in order, must be UTF-8; the first one
/// that the sense meets becomes its language, and every later one must name
/// the same. Malformed attributes and other keys are passed over.
pub open spec fn language_after(attrs: Seq<Option<AttributeModel>>, lang: Option<Seq<char>>) -> Result<
    Option<Seq<char>>,
    ErrorKind,
>
    decreases attrs.len(),
{
    if attrs.len() == 0 {
        Ok(lang)
    } else {
        match attrs[0] {
            Some(attr) => if !is_language_key(attr.key) {
                language_after(attrs.skip(1), lang)
            } else if !valid_utf8(attr.value) {
                Err(ErrorKind::InvalidLanguage)
            } else {
                match lang {
                    Some(current) => if current == decode_utf8(attr.value) {
                        language_after(attrs.skip(1), lang)
                    } else {
                        Err(ErrorKind::LanguageMismatch)
                    },
                    None => language_after(attrs.skip(1), Some(decode_utf8(attr.value))),
                }
            },
            None => language_after(attrs.skip(1), lang),
        }
    }
}

/// What an opening tag does to the parser: a known child moves the cursor
/// there, and a gloss also brings its language; an unknown one is passed
/// over in silence.
pub open spec fn sense_open(
    st: SenseState,
    name: Seq<u8>,
    content: Seq<u8>,
    offset: usize,
) -> Step<SenseState, SenseModel> {
    match tag_of(name) {
        Tag::Stagk => Step::Go(SenseState { cursor: Some(SenseField::SenseTagKanji), ..st }, None),
        Tag::Stagr => Step::Go(
            SenseState { cursor: Some(SenseField::SenseTagReading), ..st },
            None,
        ),
        Tag::Pos => Step::Go(SenseState { cursor: Some(SenseField::PartOfSpeech), ..st }, None),
        Tag::Xref => Step::Go(SenseState { cursor: Some(SenseField::CrossReference), ..st }, None),
        Tag::Ant => Step::Go(SenseState { cursor: Some(SenseField::Antonym), ..st }, None),
        Tag::Field => Step::Go(SenseState { cursor: Some(SenseField::Field), ..st }, None),
        Tag::Misc => Step::Go(SenseState { cursor: Some(SenseField::Misc), ..st }, None),
        Tag::Gloss => match language_after(attributes_of(content, name.len()), st.sense.lang) {
            Ok(lang) => Step::Go(
                SenseState {
                    sense: SenseModel { lang, ..st.sense },
                    cursor: Some(SenseField::Gloss),
                },
                None,
            ),
            Err(kind) => fail(kind, offset),
        },
        _ => Step::Go(st, None),
    }
}

/// What a text does to the parser, by the field under the cursor. The
/// restrictions and the glosses are unescaped; parts of speech, fields and
/// notes are coded values; cross-references and antonyms are unescaped and
/// then taken apart. With no field open the text is passed over in silence.
pub open spec fn sense_text(st: SenseState, raw: Seq<u8>, offset: usize, codec: int) -> Step<
    SenseState,
    SenseModel,
> {
    let s = st.sense;
    match st.cursor {
        None => Step::Go(st, None),
        Some(SenseField::PartOfSpeech) => if is_entity(raw) {
            Step::Go(
                SenseState {
                    sense: SenseModel {
                        part_of_speech: s.part_of_speech.push(decoded(codec, entity_body(raw))),
                        ..s
                    },
                    ..st
                },
                None,
            )
        } else {
            fail(ErrorKind::MalformedEntity, offset)
        },
        Some(SenseField::Field) => if is_entity(raw) {
            Step::Go(
                SenseState {
                    sense: SenseModel {
                        field: s.field.push(decoded(codec, entity_body(raw))),
                        ..s
                    },
                    ..st
                },
                None,
            )
        } else {
            fail(ErrorKind::MalformedEntity, offset)
        },
        Some(SenseField::Misc) => if is_entity(raw) {
            Step::Go(
                SenseState {
                    sense: SenseModel { misc: s.misc.push(decoded(codec, entity_body(raw))), ..s },
                    ..st
                },
                None,
            )
        } else {
            fail(ErrorKind::MalformedEntity, offset)
        },
        Some(field) => match unescaped(codec, raw) {
            None => fail(ErrorKind::Escape, offset),
            Some(text) => match field {
                SenseField::SenseTagKanji => Step::Go(
                    SenseState {
                        sense: SenseModel { only_kanji: s.only_kanji.push(text), ..s },
                        ..st
                    },
                    None,
                ),
                SenseField::SenseTagReading => Step::Go(
                    SenseState {
                        sense: SenseModel { only_readings: s.only_readings.push(text), ..s },
                        ..st
                    },
                    None,
                ),
                SenseField::CrossReference => match cross_reference_of(text) {
                    Ok(x) => Step::Go(
                        SenseState {
                            sense: SenseModel { cross_refs: s.cross_refs.push(x), ..s },
                            ..st
                        },
                        None,
                    ),
                    Err(kind) => fail(kind, offset),
                },
                SenseField::Antonym => match cross_reference_of(text) {
                    Ok(x) => Step::Go(
                        SenseState {
                            sense: SenseModel { antonyms: s.antonyms.push(x), ..s },
                            ..st
                        },
                        None,
                    ),
                    Err(kind) => fail(kind, offset),
                },
                SenseField::Gloss => Step::Go(
                    SenseState { sense: SenseModel { glosses: s.glosses.push(text), ..s }, ..st },
                    None,
                ),
                // the coded fields were dealt with above
                _ => Step::Go(st, None),
            },
        },
    }
}

/// What one event does to the parser. The closing tag of the element ends
/// the parser with the sense as it stands; any other closing tag resets the
/// cursor.
pub open spec fn sense_step(st: SenseState, ev: XmlEvent) -> Step<SenseState, SenseModel> {
    match ev.kind {
        TokenKindModel::Start { name, content } => sense_open(st, name, content, ev.offset),
        TokenKindModel::End { name } => if tag_of(name) == Tag::Sense {
            Step::Done(Ok(st.sense))
        } else {
            Step::Go(SenseState { cursor: None, ..st }, None)
        },
        TokenKindModel::Text { raw } => sense_text(st, raw, ev.offset, ev.codec),
        TokenKindModel::Eof => fail(ErrorKind::UnexpectedEnd, ev.offset),
        TokenKindModel::Other => Step::Go(st, None),
        TokenKindModel::Invalid => fail(ErrorKind::Markup, ev.offset),
    }
}

/// The run of the parser from state `st` over `events`. It reads up to the
/// event that ends it; the end of the document is not taken off. A sense
/// gives no warnings.
pub open spec fn sense_run(events: Seq<XmlEvent>, st: SenseState) -> Outcome<SenseModel>
    decreases events.len(),
{
    if events.len() == 0 {
        Outcome {
            result: Err(ParseError { kind: ErrorKind::UnexpectedEnd, offset: 0 }),
            rest: events,
            position: 0,
            warnings: Seq::empty(),
        }
    } else {
        match sense_step(st, events[0]) {
            Step::Go(next, warning) => sense_run(events.skip(1), next),
            Step::Done(result) => Outcome {
                result,
                rest: if events[0].kind is Eof {
                    events
                } else {
                    events.skip(1)
                },
                position: events[0].offset,
                warnings: Seq::empty(),
            },
        }
    }
}

/// A run leaves no more events than it was given.
pub proof fn lemma_sense_rest(events: Seq<XmlEvent>, st: SenseState)
    ensures
        sense_run(events, st).rest.len() <= events.len(),
    decreases events.len(),
{
    if events.len() > 0 {
        match sense_step(st, events[0]) {
            Step::Go(next, warning) => lemma_sense_rest(events.skip(1), next),
            Step::Done(result) => {},
        }
    }
}

/// Takes the language markers of a gloss into account.
pub fn read_language(attrs: &Vec<Option<Attribute>>, lang: Option<String>) -> (r: Result<
    Option<String>,
    ErrorKind,
>)
    ensures
        match r {
            Ok(l) => language_after(attribute_models(attrs@), text_model(lang)) == Ok::<
                Option<Seq<char>>,
                ErrorKind,
            >(text_model(l)),
            Err(kind) => language_after(attribute_models(attrs@), text_model(lang)) == Err::<
                Option<Seq<char>>,
                ErrorKind,
            >(kind),
        },
{
    let ghost all = attribute_models(attrs@);
    let ghost goal = language_after(all, text_model(lang));
    let mut found = lang;
    let mut i: usize = 0;
    assert(all.skip(0) =~= all);
    while i < attrs.len()
        invariant
            i <= attrs.len(),
            all == attribute_models(attrs@),
            goal == language_after(all, text_model(lang)),
            goal == language_after(all.skip(i as int), text_model(found)),
        decreases attrs.len() - i,
    {
        assert(all.skip(i as int).skip(1) =~= all.skip(i + 1));
        assert(all.skip(i as int)[0] == all[i as int]);
        match &attrs[i] {
            Some(attr) => {
                if names_language(attr.key.as_slice()) {
                    match text_of_utf8(attr.value.as_slice()) {
                        None => {
                            return Err(ErrorKind::InvalidLanguage);
                        },
                        Some(text) => {
                            match &found {
                                Some(current) => {
                                    if *current != text {
                                        return Err(ErrorKind::LanguageMismatch);
                                    }
                                },
                                None => {
                                    found = Some(text);
                                },
                            }
                        },
                    }
                }
            },
            None => {},
        }
        i += 1;
    }
    Ok(found)
}

/// Reads one `sense` element, whose opening tag has just been read, up to
/// its closing tag.
pub fn parse_sense(stream: &mut TokenStream) -> (r: Result<Sense, ParseError>)
    ensures
        ({
            let out = sense_run(old(stream).pending(), sense_start());
            &&& final(stream).pending() == out.rest
            &&& final(stream).position() == out.position
            &&& match r {
                Ok(sense) => out.result == Ok::<SenseModel, ParseError>(sense@),
                Err(e) => out.result == Err::<SenseModel, ParseError>(e),
            }
        }),
{
    let ghost out = sense_run(stream.pending(), sense_start());
    let mut only_kanji: Vec<String> = Vec::new();
    let mut only_readings: Vec<String> = Vec::new();
    let mut part_of_speech: Vec<String> = Vec::new();
    let mut cross_refs: Vec<CrossReference> = Vec::new();
    let mut antonyms: Vec<CrossReference> = Vec::new();
    let mut field: Vec<String> = Vec::new();
    let mut misc: Vec<String> = Vec::new();
    let mut glosses: Vec<String> = Vec::new();
    let mut lang: Option<String> = None;
    let mut cursor: Option<SenseField> = None;
    proof {
        lemma_deep_view_empty(only_kanji);
        lemma_deep_view_empty(only_readings);
        lemma_deep_view_empty(part_of_speech);
        lemma_deep_view_empty(cross_refs);
        lemma_deep_view_empty(antonyms);
        lemma_deep_view_empty(field);
        lemma_deep_view_empty(misc);
        lemma_deep_view_empty(glosses);
    }
    loop
        invariant
            out == sense_run(old(stream).pending(), sense_start()),
            out == sense_run(
                stream.pending(),
                SenseState {
                    sense: SenseModel {
                        only_kanji: only_kanji.deep_view(),
                        only_readings: only_readings.deep_view(),
                        part_of_speech: part_of_speech.deep_view(),
                        cross_refs: cross_refs.deep_view(),
                        antonyms: antonyms.deep_view(),
                        field: field.deep_view(),
                        misc: misc.deep_view(),
                        glosses: glosses.deep_view(),
                        lang: text_model(lang),
                    },
                    cursor,
                },
            ),
        decreases stream.pending().len(),
    {
        let token = stream.next_token();
        let offset = token.offset;
        match token.kind {
            TokenKind::Start { name, content } => {
                match classify(name.as_slice()) {
                    Tag::Stagk => {
                        cursor = Some(SenseField::SenseTagKanji);
                    },
                    Tag::Stagr => {
                        cursor = Some(SenseField::SenseTagReading);
                    },
                    Tag::Pos => {
                        cursor = Some(SenseField::PartOfSpeech);
                    },
                    Tag::Xref => {
                        cursor = Some(SenseField::CrossReference);
                    },
                    Tag::Ant => {
                        cursor = Some(SenseField::Antonym);
                    },
                    Tag::Field => {
                        cursor = Some(SenseField::Field);
                    },
                    Tag::Misc => {
                        cursor = Some(SenseField::Misc);
                    },
                    Tag::Gloss => {
                        cursor = Some(SenseField::Gloss);
                        let attrs = attributes(name.as_slice(), content.as_slice());
                        match read_language(&attrs, lang) {
                            Ok(l) => {
                                lang = l;
                            },
                            Err(kind) => {
                                return Err(ParseError { kind, offset });
                            },
                        }
                    },
                    _ => {},
                }
            },
            TokenKind::End { name } => {
                if classify(name.as_slice()) == Tag::Sense {
                    return Ok(
                        Sense {
                            only_kanji,
                            only_readings,
                            part_of_speech,
                            cross_refs,
                            antonyms,
                            field,
                            misc,
                            glosses,
                            lang,
                        },
                    );
                }
                cursor = None;
            },
            TokenKind::Text { raw } => {
                match cursor {
                    None => {},
                    Some(SenseField::PartOfSpeech) => {
                        match parse_single_entity(raw.as_slice(), stream) {
                            Ok(text) => {
                                let ghost before = part_of_speech;
                                part_of_speech.push(text);
                                proof {
                                    lemma_deep_view_push(before, part_of_speech, text);
                                }
                            },
                            Err(e) => {
                                return Err(e);
                            },
                        }
                    },
                    Some(SenseField::Field) => {
                        match parse_single_entity(raw.as_slice(), stream) {
                            Ok(text) => {
                                let ghost before = field;
                                field.push(text);
                                proof {
                                    lemma_deep_view_push(before, field, text);
                                }
                            },
                            Err(e) => {
                                return Err(e);
                            },
                        }
                    },
                    Some(SenseField::Misc) => {
                        match parse_single_entity(raw.as_slice(), stream) {
                            Ok(text) => {
                                let ghost before = misc;
                                misc.push(text);
                                proof {
                                    lemma_deep_view_push(before, misc, text);
                                }
                            },
                            Err(e) => {
                                return Err(e);
                            },
                        }
                    },
                    Some(open) => {
                        let text = match stream.unescape(raw.as_slice()) {
                            Some(text) => text,
                            None => {
                                return Err(ParseError { kind: ErrorKind::Escape, offset });
                            },
                        };
                        match open {
                            SenseField::SenseTagKanji => {
                                let ghost before = only_kanji;
                                only_kanji.push(text);
                                proof {
                                    lemma_deep_view_push(before, only_kanji, text);
                                }
                            },
                            SenseField::SenseTagReading => {
                                let ghost before = only_readings;
                                only_readings.push(text);
                                proof {
                                    lemma_deep_view_push(before, only_readings, text);
                                }
                            },
                            SenseField::CrossReference => {
                                match parse_cross_ref(text.as_str(), offset) {
                                    Ok(x) => {
                                        let ghost before = cross_refs;
                                        cross_refs.push(x);
                                        proof {
                                            lemma_deep_view_push(before, cross_refs, x);
                                        }
                                    },
                                    Err(e) => {
                                        return Err(e);
                                    },
                                }
                            },
                            SenseField::Antonym => {
                                match parse_cross_ref(text.as_str(), offset) {
                                    Ok(x) => {
                                        let ghost before = antonyms;
                                        antonyms.push(x);
                                        proof {
                                            lemma_deep_view_push(before, antonyms, x);
                                        }
                                    },
                                    Err(e) => {
                                        return Err(e);
                                    },
                                }
                            },
                            SenseField::Gloss => {
                                let ghost before = glosses;
                                glosses.push(text);
                                proof {
                                    lemma_deep_view_push(before, glosses, text);
                                }
                            },
                            // the coded fields were dealt with above
                            _ => {},
                        }
                    },
                }
            },
            TokenKind::Eof => {
                return Err(ParseError { kind: ErrorKind::UnexpectedEnd, offset });
            },
            TokenKind::Other => {},
            TokenKind::Invalid => {
                return Err(ParseError { kind: ErrorKind::Markup, offset });
            },
        }
    }
}

} // verus!

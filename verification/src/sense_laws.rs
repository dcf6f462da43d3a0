//! What holds of every sense that the parser lets through, stated over the
//! events of its fragment.

use crate::error::ErrorKind;
use crate::outcome::Step;
use crate::schema::{is_language_key, tag_of, Tag};
use crate::sense::{
    language_after, sense_open, sense_run, sense_step, sense_text, SenseField, SenseModel,
    SenseState,
};
use crate::token::{attributes_of, unescaped, AttributeModel, TokenKindModel, XmlEvent};
use vstd::prelude::*;
use vstd::utf8::{decode_utf8, valid_utf8};

verus! {

/// The field whose text an opening tag announces, if the tag is a known
/// child of a sense.
pub open spec fn field_of(tag: Tag) -> Option<SenseField> {
    match tag {
        Tag::Stagk => Some(SenseField::SenseTagKanji),
        Tag::Stagr => Some(SenseField::SenseTagReading),
        Tag::Pos => Some(SenseField::PartOfSpeech),
        Tag::Xref => Some(SenseField::CrossReference),
        Tag::Ant => Some(SenseField::Antonym),
        Tag::Field => Some(SenseField::Field),
        Tag::Misc => Some(SenseField::Misc),
        Tag::Gloss => Some(SenseField::Gloss),
        _ => None,
    }
}

/// Whether an event is the closing tag of a sense.
pub open spec fn closes_sense(ev: XmlEvent) -> bool {
    ev.kind matches TokenKindModel::End { name } && tag_of(name) == Tag::Sense
}

/// Where the cursor stands after an event: on the field of a known opening
/// tag, nowhere after a closing tag, else where it stood.
pub open spec fn cursor_after(cursor: Option<SenseField>, ev: XmlEvent) -> Option<SenseField> {
    match ev.kind {
        TokenKindModel::Start { name, content } => match field_of(tag_of(name)) {
            Some(field) => Some(field),
            None => cursor,
        },
        TokenKindModel::End { name } => None,
        _ => cursor,
    }
}

/// The text that an event writes into `field`: that of a text event met
/// with the cursor on the field, unescaped.
pub open spec fn text_under(ev: XmlEvent, cursor: Option<SenseField>, field: SenseField) -> Seq<
    Seq<char>,
> {
    match ev.kind {
        TokenKindModel::Text { raw } => if cursor == Some(field) {
            match unescaped(ev.codec, raw) {
                Some(text) => seq![text],
                None => Seq::empty(),
            }
        } else {
            Seq::empty()
        },
        _ => Seq::empty(),
    }
}

/// The texts that the events up to the closing tag of the sense write into
/// `field`, in the order of the document.
pub open spec fn field_texts(
    events: Seq<XmlEvent>,
    cursor: Option<SenseField>,
    field: SenseField,
) -> Seq<Seq<char>>
    decreases events.len(),
{
    if events.len() == 0 || closes_sense(events[0]) {
        Seq::empty()
    } else {
        text_under(events[0], cursor, field) + field_texts(
            events.skip(1),
            cursor_after(cursor, events[0]),
            field,
        )
    }
}

/// The list in which a sense keeps the texts of a field that is stored as
/// written: the glosses and the two lists of restrictions.
pub open spec fn kept_texts(sense: SenseModel, field: SenseField) -> Seq<Seq<char>> {
    match field {
        SenseField::Gloss => sense.glosses,
        SenseField::SenseTagKanji => sense.only_kanji,
        SenseField::SenseTagReading => sense.only_readings,
        _ => Seq::empty(),
    }
}

/// Whether a field is stored as written.
pub open spec fn is_kept(field: SenseField) -> bool {
    field == SenseField::Gloss || field == SenseField::SenseTagKanji || field
        == SenseField::SenseTagReading
}

/// Glosses and restrictions keep the order of the document: the list of a
/// sense that was read is the list the parser started with, followed by
/// exactly the texts that the fragment writes into that field, in their
/// order, none dropped and none added.
pub proof fn lemma_sense_keeps_order(events: Seq<XmlEvent>, st: SenseState, field: SenseField)
    requires
        is_kept(field),
    ensures
        sense_run(events, st).result matches Ok(sense) ==> kept_texts(sense, field) == kept_texts(
            st.sense,
            field,
        ) + field_texts(events, st.cursor, field),
    decreases events.len(),
{
    if events.len() > 0 {
        let ev = events[0];
        match sense_step(st, ev) {
            Step::Go(next, warning) => {
                lemma_sense_keeps_order(events.skip(1), next, field);
                assert(next.cursor == cursor_after(st.cursor, ev));
                assert(kept_texts(next.sense, field) =~= kept_texts(st.sense, field) + text_under(
                    ev,
                    st.cursor,
                    field,
                ));
                assert(!closes_sense(ev));
                let tail = field_texts(events.skip(1), next.cursor, field);
                assert((kept_texts(st.sense, field) + text_under(ev, st.cursor, field)) + tail
                    =~= kept_texts(st.sense, field) + (text_under(ev, st.cursor, field) + tail));
            },
            Step::Done(result) => {
                if result is Ok {
                    assert(closes_sense(ev));
                    assert(kept_texts(st.sense, field) + Seq::empty() =~= kept_texts(
                        st.sense,
                        field,
                    ));
                }
            },
        }
    }
}

/// The values of the language markers among the attributes of a tag, as
/// written, in order.
pub open spec fn marker_values(attrs: Seq<Option<AttributeModel>>) -> Seq<Seq<u8>>
    decreases attrs.len(),
{
    if attrs.len() == 0 {
        Seq::empty()
    } else {
        let here = match attrs[0] {
            Some(attr) => if is_language_key(attr.key) {
                seq![attr.value]
            } else {
                Seq::empty()
            },
            None => Seq::empty(),
        };
        here + marker_values(attrs.skip(1))
    }
}

/// The values of the language markers on the glosses of a fragment, up to
/// the closing tag of the sense, in order.
pub open spec fn gloss_markers(events: Seq<XmlEvent>) -> Seq<Seq<u8>>
    decreases events.len(),
{
    if events.len() == 0 || closes_sense(events[0]) {
        Seq::empty()
    } else {
        let here = match events[0].kind {
            TokenKindModel::Start { name, content } => if tag_of(name) == Tag::Gloss {
                marker_values(attributes_of(content, name.len()))
            } else {
                Seq::empty()
            },
            _ => Seq::empty(),
        };
        here + gloss_markers(events.skip(1))
    }
}

/// Whether every marker of a list is UTF-8 and names the language `lang`.
pub open spec fn all_name(markers: Seq<Seq<u8>>, lang: Option<Seq<char>>) -> bool {
    forall|i: int|
        0 <= i < markers.len() ==> valid_utf8(#[trigger] markers[i]) && lang == Some(
            decode_utf8(markers[i]),
        )
}

/// Where the attributes of a gloss are accepted, the language that comes out
/// is the one that went in, if there was one, and every marker among the
/// attributes names it; without a marker nothing changes.
pub proof fn lemma_language_agrees(attrs: Seq<Option<AttributeModel>>, lang: Option<Seq<char>>)
    ensures
        language_after(attrs, lang) matches Ok(found) ==> {
            &&& lang is Some ==> found == lang
            &&& marker_values(attrs).len() == 0 ==> found == lang
            &&& all_name(marker_values(attrs), found)
        },
    decreases attrs.len(),
{
    if attrs.len() > 0 {
        let rest = attrs.skip(1);
        match attrs[0] {
            Some(attr) => {
                if !is_language_key(attr.key) {
                    lemma_language_agrees(rest, lang);
                    assert(marker_values(attrs) =~= marker_values(rest));
                } else if valid_utf8(attr.value) {
                    let named = Some(decode_utf8(attr.value));
                    if lang is None || lang == named {
                        lemma_language_agrees(rest, named);
                        if language_after(attrs, lang) is Ok {
                            let found = language_after(attrs, lang)->Ok_0;
                            let all = marker_values(attrs);
                            assert(all =~= seq![attr.value] + marker_values(rest));
                            assert forall|i: int| 0 <= i < all.len() implies valid_utf8(
                                #[trigger] all[i],
                            ) && found == Some(decode_utf8(all[i])) by {
                                if i > 0 {
                                    assert(all[i] == marker_values(rest)[i - 1]);
                                }
                            }
                        }
                    }
                }
            },
            None => {
                lemma_language_agrees(rest, lang);
                assert(marker_values(attrs) =~= marker_values(rest));
            },
        }
    }
}

/// Markers that all name one language are accepted, and that language is
/// what comes out, provided the sense had no language yet or had that one.
/// Without any marker the language stays as it was.
pub proof fn lemma_language_accepts(
    attrs: Seq<Option<AttributeModel>>,
    lang: Option<Seq<char>>,
    named: Seq<char>,
)
    requires
        all_name(marker_values(attrs), Some(named)),
        lang is None || lang == Some(named),
    ensures
        language_after(attrs, lang) == Ok::<Option<Seq<char>>, ErrorKind>(
            if marker_values(attrs).len() == 0 {
                lang
            } else {
                Some(named)
            },
        ),
    decreases attrs.len(),
{
    if attrs.len() > 0 {
        let rest = attrs.skip(1);
        let all = marker_values(attrs);
        match attrs[0] {
            Some(attr) => {
                if is_language_key(attr.key) {
                    assert(all =~= seq![attr.value] + marker_values(rest));
                    assert(all[0] == attr.value);
                    assert forall|i: int| 0 <= i < marker_values(rest).len() implies valid_utf8(
                        #[trigger] marker_values(rest)[i],
                    ) && Some(named) == Some(decode_utf8(marker_values(rest)[i])) by {
                        assert(marker_values(rest)[i] == all[i + 1]);
                    }
                    lemma_language_accepts(rest, Some(named), named);
                } else {
                    assert(all =~= marker_values(rest));
                    lemma_language_accepts(rest, lang, named);
                }
            },
            None => {
                assert(all =~= marker_values(rest));
                lemma_language_accepts(rest, lang, named);
            },
        }
    }
}

/// A marker that names another language than the one the sense has is
/// refused as a mismatch, whatever follows it, if no marker stands before it.
pub proof fn lemma_language_conflict(
    attrs: Seq<Option<AttributeModel>>,
    current: Seq<char>,
    at: int,
)
    requires
        0 <= at < attrs.len(),
        forall|j: int|
            0 <= j < at ==> !(#[trigger] attrs[j] matches Some(a) && is_language_key(a.key)),
        attrs[at] matches Some(a) && is_language_key(a.key) && valid_utf8(a.value) && decode_utf8(
            a.value,
        ) != current,
    ensures
        language_after(attrs, Some(current)) == Err::<Option<Seq<char>>, ErrorKind>(
            ErrorKind::LanguageMismatch,
        ),
    decreases at,
{
    if at > 0 {
        let rest = attrs.skip(1);
        assert(rest[at - 1] == attrs[at]);
        assert forall|j: int| 0 <= j < at - 1 implies !(#[trigger] rest[j] matches Some(a)
            && is_language_key(a.key)) by {
            assert(rest[j] == attrs[j + 1]);
        }
        lemma_language_conflict(rest, current, at - 1);
        assert(!(attrs[0] matches Some(a) && is_language_key(a.key)));
    }
}

/// One language for a sense: where a sense was read, every language marker
/// on its glosses is UTF-8 and names the language of the sense, which is the
/// one the parser started with if it had one. So glosses that name two
/// languages never pass, and without any marker the language stays as it was.
pub proof fn lemma_sense_language(events: Seq<XmlEvent>, st: SenseState)
    ensures
        sense_run(events, st).result matches Ok(sense) ==> {
            &&& st.sense.lang is Some ==> sense.lang == st.sense.lang
            &&& gloss_markers(events).len() == 0 ==> sense.lang == st.sense.lang
            &&& all_name(gloss_markers(events), sense.lang)
        },
    decreases events.len(),
{
    if events.len() > 0 {
        let ev = events[0];
        let rest = events.skip(1);
        match sense_step(st, ev) {
            Step::Go(next, warning) => {
                lemma_sense_language(rest, next);
                if sense_run(events, st).result is Ok {
                    let sense = sense_run(events, st).result->Ok_0;
                    let here = match ev.kind {
                        TokenKindModel::Start { name, content } => if tag_of(name) == Tag::Gloss {
                            marker_values(attributes_of(content, name.len()))
                        } else {
                            Seq::empty()
                        },
                        _ => Seq::empty(),
                    };
                    let all = gloss_markers(events);
                    assert(!closes_sense(ev));
                    assert(all =~= here + gloss_markers(rest));
                    match ev.kind {
                        TokenKindModel::Start { name, content } => {
                            if tag_of(name) == Tag::Gloss {
                                lemma_language_agrees(
                                    attributes_of(content, name.len()),
                                    st.sense.lang,
                                );
                                if here.len() > 0 {
                                    assert(valid_utf8(here[0]));
                                }
                            } else {
                                assert(next.sense.lang == st.sense.lang);
                            }
                        },
                        _ => {
                            assert(next.sense.lang == st.sense.lang);
                        },
                    }
                    // every marker met here names the language that the
                    // sense then has, and that language stays to the end
                    assert(here.len() > 0 ==> next.sense.lang is Some);
                    assert forall|i: int| 0 <= i < all.len() implies valid_utf8(
                        #[trigger] all[i],
                    ) && sense.lang == Some(decode_utf8(all[i])) by {
                        if i < here.len() {
                            assert(all[i] == here[i]);
                        } else {
                            assert(all[i] == gloss_markers(rest)[i - here.len()]);
                        }
                    }
                }
            },
            Step::Done(result) => {
                if result is Ok {
                    assert(closes_sense(ev));
                }
            },
        }
    }
}

} // verus!

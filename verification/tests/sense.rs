use jmdict_couch::error::{ErrorKind, ParseError};
use jmdict_couch::sense::{parse_sense, read_language, Sense};
use jmdict_couch::token::{Attribute, TokenKind, TokenStream};
use jmdict_couch::xref::CrossReference;

fn empty_sense() -> Sense {
    Sense {
        only_kanji: vec![],
        only_readings: vec![],
        part_of_speech: vec![],
        cross_refs: vec![],
        antonyms: vec![],
        field: vec![],
        misc: vec![],
        glosses: vec![],
        lang: None,
    }
}

fn sense_of(xml: &str) -> Result<Sense, ParseError> {
    let mut reader = TokenStream::new(xml.as_bytes());
    let _ = reader.next_token();
    parse_sense(&mut reader)
}

fn kind_of(xml: &str) -> ErrorKind {
    sense_of(xml).unwrap_err().kind
}

#[test]
fn test_parse_sense() {
    let xml = r#"<sense>
                 <stagk>延べる</stagk>
                 <stagk>伸べる</stagk>
                 <gloss>to postpone</gloss>
                 <gloss>to extend</gloss>
                 </sense>"#;
    let mut reader = TokenStream::new(xml.as_bytes());
    let _ = reader.next_token();
    assert_eq!(
        parse_sense(&mut reader).unwrap(),
        Sense {
            only_kanji: vec!["延べる".to_owned(), "伸べる".to_owned()],
            only_readings: vec![],
            antonyms: vec![],
            part_of_speech: vec![],
            cross_refs: vec![],
            field: vec![],
            misc: vec![],
            glosses: vec!["to postpone".to_owned(), "to extend".to_owned()],
            lang: None,
        }
    );
}

#[test]
fn sense_keeps_every_field_in_document_order() {
    let xml = "<sense><stagr>のべる</stagr><pos>&v1;</pos><pos>&vt;</pos>\
               <xref>何方・どちら・1</xref><ant>因・2</ant><field>&comp;</field>\
               <misc>&uk;</misc><stagr>のばす</stagr>\
               <gloss>b</gloss><gloss>a &amp; c</gloss><gloss>b</gloss></sense><next/>";
    let mut reader = TokenStream::new(xml.as_bytes());
    let _ = reader.next_token();
    assert_eq!(
        parse_sense(&mut reader).unwrap(),
        Sense {
            only_kanji: vec![],
            only_readings: vec!["のべる".to_owned(), "のばす".to_owned()],
            part_of_speech: vec!["v1".to_owned(), "vt".to_owned()],
            cross_refs: vec![CrossReference {
                kanji_or_reading: "何方".to_owned(),
                reading: Some("どちら".to_owned()),
                sense_index: Some(1),
            }],
            antonyms: vec![CrossReference {
                kanji_or_reading: "因".to_owned(),
                reading: None,
                sense_index: Some(2),
            }],
            field: vec!["comp".to_owned()],
            misc: vec!["uk".to_owned()],
            glosses: vec!["b".to_owned(), "a & c".to_owned(), "b".to_owned()],
            lang: None,
        }
    );
    // the parser stops behind the closing tag of the sense
    assert_eq!(
        reader.next_token().kind,
        TokenKind::Start { name: b"next".to_vec(), content: b"next".to_vec() }
    );
}

#[test]
fn sense_hoists_the_language_of_its_glosses() {
    let sense = sense_of(
        "<sense><gloss xml:lang=\"fre\">un</gloss><gloss xml:lang=\"fre\">deux</gloss></sense>",
    )
    .unwrap();
    assert_eq!(sense.lang, Some("fre".to_owned()));
    assert_eq!(sense.glosses, vec!["un".to_owned(), "deux".to_owned()]);
}

#[test]
fn sense_accepts_glosses_without_a_language_beside_marked_ones() {
    let sense = sense_of(
        "<sense><gloss>one</gloss><gloss xml:lang=\"eng\" g_type=\"expl\">two</gloss></sense>",
    )
    .unwrap();
    assert_eq!(sense.lang, Some("eng".to_owned()));
}

#[test]
fn sense_rejects_conflicting_languages() {
    let xml = "<sense><gloss xml:lang=\"fre\">un</gloss><gloss xml:lang=\"ger\">zwei</gloss></sense>";
    assert_eq!(
        sense_of(xml),
        Err(ParseError { kind: ErrorKind::LanguageMismatch, offset: 61 })
    );
}

#[test]
fn sense_rejects_a_language_that_is_not_utf8() {
    let mut xml = b"<sense><gloss xml:lang=\"".to_vec();
    xml.push(0xff);
    xml.extend_from_slice(b"\">x</gloss></sense>");
    let mut reader = TokenStream::new(&xml);
    let _ = reader.next_token();
    assert_eq!(parse_sense(&mut reader).unwrap_err().kind, ErrorKind::InvalidLanguage);
}

#[test]
fn sense_passes_over_unknown_children_and_stray_text() {
    let sense = sense_of(
        "<sense>stray<s_inf>note</s_inf><gloss>kept<!-- c --></gloss><dial>&ksb;</dial></sense>",
    )
    .unwrap();
    let mut expected = empty_sense();
    expected.glosses = vec!["kept".to_owned()];
    assert_eq!(sense, expected);
}

#[test]
fn sense_routes_text_after_an_unknown_child_to_the_open_field() {
    // an unknown opening tag leaves the cursor where it is
    let sense = sense_of("<sense><gloss><b>bold</b></gloss></sense>").unwrap();
    assert_eq!(sense.glosses, vec!["bold".to_owned()]);
    // a closing tag resets it
    let sense = sense_of("<sense><gloss><b></b>lost</gloss></sense>").unwrap();
    assert_eq!(sense.glosses, Vec::<String>::new());
}

#[test]
fn sense_errors() {
    assert_eq!(kind_of("<sense><pos>n</pos></sense>"), ErrorKind::MalformedEntity);
    assert_eq!(kind_of("<sense><field>&a;&b;</field></sense>"), ErrorKind::MalformedEntity);
    assert_eq!(kind_of("<sense><misc>&a</misc></sense>"), ErrorKind::MalformedEntity);
    assert_eq!(kind_of("<sense><gloss>&n;</gloss></sense>"), ErrorKind::Escape);
    assert_eq!(kind_of("<sense><stagk>a & b</stagk></sense>"), ErrorKind::Escape);
    assert_eq!(
        kind_of("<sense><xref>何方・どちら・彼方</xref></sense>"),
        ErrorKind::AmbiguousCrossReference
    );
    assert_eq!(kind_of("<sense><gloss>x</gloss>"), ErrorKind::UnexpectedEnd);
    assert_eq!(kind_of("<sense><!x></sense>"), ErrorKind::Markup);
}

#[test]
fn sense_errors_carry_the_offset_of_the_stream() {
    let xml = "<sense><pos>n</pos></sense>";
    assert_eq!(
        sense_of(xml),
        Err(ParseError { kind: ErrorKind::MalformedEntity, offset: 13 })
    );
    let xml = "<sense><xref>a・b・c</xref></sense>";
    assert_eq!(
        sense_of(xml),
        Err(ParseError { kind: ErrorKind::AmbiguousCrossReference, offset: 22 })
    );
}

fn attr(key: &str, value: &str) -> Option<Attribute> {
    Some(Attribute { key: key.as_bytes().to_vec(), value: value.as_bytes().to_vec() })
}

#[test]
fn language_markers_must_agree() {
    let none: Vec<Option<Attribute>> = vec![];
    assert_eq!(read_language(&none, None), Ok(None));
    assert_eq!(read_language(&none, Some("eng".to_owned())), Ok(Some("eng".to_owned())));
    assert_eq!(
        read_language(&vec![attr("g_type", "expl"), None, attr("xml:lang", "fre")], None),
        Ok(Some("fre".to_owned()))
    );
    assert_eq!(
        read_language(&vec![attr("xml:lang", "fre")], Some("fre".to_owned())),
        Ok(Some("fre".to_owned()))
    );
    assert_eq!(
        read_language(&vec![attr("xml:lang", "fre")], Some("eng".to_owned())),
        Err(ErrorKind::LanguageMismatch)
    );
    assert_eq!(
        read_language(&vec![attr("xml:lang", "fre"), attr("xml:lang", "eng")], None),
        Err(ErrorKind::LanguageMismatch)
    );
    let bad = Some(Attribute { key: b"xml:lang".to_vec(), value: vec![0xc0, 0x80] });
    assert_eq!(read_language(&vec![bad], None), Err(ErrorKind::InvalidLanguage));
}

use jmdict_couch::entity::parse_single_entity;
use jmdict_couch::error::{ErrorKind, ParseError, Scope, Warning, WarningKind};
use jmdict_couch::kanji::{parse_k_ele, KanjiEntry};
use jmdict_couch::reading::{parse_r_ele, ReadingEntry};
use jmdict_couch::tags::TagVec;
use jmdict_couch::token::TokenStream;

fn kanji_of(xml: &str) -> (Result<KanjiEntry, ParseError>, Vec<Warning>) {
    let mut reader = TokenStream::new(xml.as_bytes());
    let mut warnings = Vec::new();
    let _ = reader.next_token();
    let r = parse_k_ele(&mut reader, &mut warnings);
    (r, warnings)
}

fn reading_of(xml: &str) -> (Result<ReadingEntry, ParseError>, Vec<Warning>) {
    let mut reader = TokenStream::new(xml.as_bytes());
    let mut warnings = Vec::new();
    let _ = reader.next_token();
    let r = parse_r_ele(&mut reader, &mut warnings);
    (r, warnings)
}

fn strings(items: &[&str]) -> Vec<String> {
    items.iter().map(|s| s.to_string()).collect()
}

#[test]
fn kanji_element_is_read_whole() {
    let (r, warnings) = kanji_of(
        "<k_ele><keb>延べる</keb><ke_inf>&iK;</ke_inf><ke_pri>news1</ke_pri>\
         <ke_pri>ichi1</ke_pri><ke_inf>&oK;</ke_inf></k_ele>",
    );
    let entry = r.unwrap();
    assert_eq!(entry.kanji, "延べる");
    assert_eq!(entry.info.to_vec(), strings(&["iK", "oK"]));
    assert_eq!(entry.priority.to_vec(), strings(&["news1", "ichi1"]));
    assert!(warnings.is_empty());
}

#[test]
fn kanji_headword_is_unescaped() {
    let (r, _) = kanji_of("<k_ele><keb>A&amp;B</keb></k_ele>");
    assert_eq!(r.unwrap().kanji, "A&B");
}

#[test]
fn kanji_headword_must_not_be_empty() {
    let (r, _) = kanji_of("<k_ele><ke_pri>news1</ke_pri></k_ele>");
    assert_eq!(r.unwrap_err(), ParseError { kind: ErrorKind::EmptyKanji, offset: 37 });
    let (r, _) = kanji_of("<k_ele><keb></keb></k_ele>");
    assert_eq!(r.unwrap_err().kind, ErrorKind::EmptyKanji);
}

#[test]
fn kanji_headword_must_be_trimmed() {
    // the tokenizer trims ASCII white space only
    let (r, _) = kanji_of("<k_ele><keb>\u{3000}延べる</keb></k_ele>");
    assert_eq!(r.unwrap_err().kind, ErrorKind::UntrimmedKanji);
    let (r, _) = kanji_of("<k_ele><keb>延べる&#32;</keb></k_ele>");
    assert_eq!(r.unwrap_err().kind, ErrorKind::UntrimmedKanji);
    let (r, _) = kanji_of("<k_ele><keb>&#9;延べる</keb></k_ele>");
    assert_eq!(r.unwrap_err().kind, ErrorKind::UntrimmedKanji);
    let (r, _) = kanji_of("<k_ele><keb>  延 べる\n</keb></k_ele>");
    assert_eq!(r.unwrap().kanji, "延 べる");
}

#[test]
fn kanji_element_warns_and_goes_on() {
    let (r, warnings) = kanji_of("<k_ele>stray<keb>延べる</keb><odd>x</odd>more</k_ele>");
    assert_eq!(r.unwrap().kanji, "延べる");
    assert_eq!(
        warnings,
        vec![
            Warning {
                kind: WarningKind::UnexpectedText,
                scope: Scope::Kanji,
                offset: 12,
                subject: b"stray".to_vec(),
            },
            Warning {
                kind: WarningKind::UnknownTag,
                scope: Scope::Kanji,
                offset: 37,
                subject: b"odd".to_vec(),
            },
            Warning {
                kind: WarningKind::UnexpectedText,
                scope: Scope::Kanji,
                offset: 38,
                subject: b"x".to_vec(),
            },
            Warning {
                kind: WarningKind::UnexpectedText,
                scope: Scope::Kanji,
                offset: 48,
                subject: b"more".to_vec(),
            },
        ]
    );
}

#[test]
fn kanji_text_after_an_unknown_child_goes_to_the_open_field() {
    let (r, warnings) = kanji_of("<k_ele><keb><odd>延べる</odd></keb></k_ele>");
    assert_eq!(r.unwrap().kanji, "延べる");
    assert_eq!(warnings.len(), 1);
    assert_eq!(warnings[0].kind, WarningKind::UnknownTag);
}

#[test]
fn kanji_element_errors() {
    assert_eq!(kanji_of("<k_ele><keb>&n;</keb></k_ele>").0.unwrap_err().kind, ErrorKind::Escape);
    assert_eq!(
        kanji_of("<k_ele><ke_pri>a & b</ke_pri></k_ele>").0.unwrap_err().kind,
        ErrorKind::Escape
    );
    assert_eq!(
        kanji_of("<k_ele><ke_inf>iK</ke_inf></k_ele>").0.unwrap_err().kind,
        ErrorKind::MalformedEntity
    );
    assert_eq!(
        kanji_of("<k_ele><keb>延べる</keb>").0.unwrap_err().kind,
        ErrorKind::UnexpectedEnd
    );
    assert_eq!(kanji_of("<k_ele><!x></k_ele>").0.unwrap_err().kind, ErrorKind::Markup);
}

#[test]
fn reading_element_is_read_whole() {
    let (r, warnings) = reading_of(
        "<r_ele><reb>のべる</reb><re_nokanji/><re_restr>延べる</re_restr>\
         <re_restr>伸べる</re_restr><re_inf>&ok;</re_inf><re_pri>news1</re_pri></r_ele>",
    );
    let entry = r.unwrap();
    assert_eq!(entry.kana, "のべる");
    assert!(entry.no_kanji);
    assert_eq!(entry.related_kanji, strings(&["延べる", "伸べる"]));
    assert_eq!(entry.info.to_vec(), strings(&["ok"]));
    assert_eq!(entry.priority.to_vec(), strings(&["news1"]));
    assert!(warnings.is_empty());
}

#[test]
fn reading_without_marker_has_kanji() {
    let (r, _) = reading_of("<r_ele><reb>のべる</reb></r_ele>");
    let entry = r.unwrap();
    assert!(!entry.no_kanji);
    assert!(entry.related_kanji.is_empty());
    assert!(entry.info.to_vec().is_empty());
}

#[test]
fn reading_pronunciation_must_be_trimmed_and_not_empty() {
    let (r, _) = reading_of("<r_ele><re_nokanji/></r_ele>");
    assert_eq!(r.unwrap_err(), ParseError { kind: ErrorKind::EmptyKana, offset: 28 });
    let (r, _) = reading_of("<r_ele><reb>のべる\u{a0}</reb></r_ele>");
    assert_eq!(r.unwrap_err().kind, ErrorKind::UntrimmedKana);
    let (r, _) = reading_of("<r_ele><reb>&#x20;のべる</reb></r_ele>");
    assert_eq!(r.unwrap_err().kind, ErrorKind::UntrimmedKana);
}

#[test]
fn reading_element_warns_and_goes_on() {
    let (r, warnings) = reading_of("<r_ele><reb>のべる</reb><odd/>stray</r_ele>");
    assert_eq!(r.unwrap().kana, "のべる");
    assert_eq!(warnings.len(), 2);
    assert_eq!(warnings[0].kind, WarningKind::UnknownTag);
    assert_eq!(warnings[0].scope, Scope::Reading);
    assert_eq!(warnings[0].subject, b"odd".to_vec());
    assert_eq!(warnings[1].kind, WarningKind::UnexpectedText);
    assert_eq!(warnings[1].subject, b"stray".to_vec());
}

#[test]
fn reading_element_errors() {
    assert_eq!(
        reading_of("<r_ele><reb>&n;</reb></r_ele>").0.unwrap_err().kind,
        ErrorKind::Escape
    );
    assert_eq!(
        reading_of("<r_ele><re_restr>&n;</re_restr></r_ele>").0.unwrap_err().kind,
        ErrorKind::Escape
    );
    assert_eq!(
        reading_of("<r_ele><re_inf>&a;b</re_inf></r_ele>").0.unwrap_err().kind,
        ErrorKind::MalformedEntity
    );
    assert_eq!(reading_of("<r_ele>").0.unwrap_err().kind, ErrorKind::UnexpectedEnd);
}

#[test]
fn entity_decodes_to_its_interior() {
    let stream = TokenStream::new(b"");
    assert_eq!(parse_single_entity(b"&ent;", &stream), Ok("ent".to_owned()));
    assert_eq!(parse_single_entity(b"&;", &stream), Ok("".to_owned()));
    assert_eq!(
        parse_single_entity("&名詞;".as_bytes(), &stream),
        Ok("名詞".to_owned())
    );
    assert_eq!(parse_single_entity(b"&a b;", &stream), Ok("a b".to_owned()));
}

#[test]
fn entity_with_a_missing_or_extra_marker_fails() {
    let stream = TokenStream::new(b"");
    let failure = Err(ParseError { kind: ErrorKind::MalformedEntity, offset: 0 });
    assert_eq!(parse_single_entity(b"", &stream), failure);
    assert_eq!(parse_single_entity(b"&", &stream), failure);
    assert_eq!(parse_single_entity(b";", &stream), failure);
    assert_eq!(parse_single_entity(b"&ent", &stream), failure);
    assert_eq!(parse_single_entity(b"ent;", &stream), failure);
    assert_eq!(parse_single_entity(b"ent", &stream), failure);
    assert_eq!(parse_single_entity(b"&a&b;", &stream), failure);
    assert_eq!(parse_single_entity(b"&a;b;", &stream), failure);
    assert_eq!(parse_single_entity(b"&a;&b;", &stream), failure);
    assert_eq!(parse_single_entity(b"&&;", &stream), failure);
    assert_eq!(parse_single_entity(b"&;;", &stream), failure);
    assert_eq!(parse_single_entity(b" &a;", &stream), failure);
}

#[test]
fn entity_error_carries_the_offset_of_the_stream() {
    let mut stream = TokenStream::new(b"<a>text</a>");
    let _ = stream.next_token();
    let _ = stream.next_token();
    assert_eq!(
        parse_single_entity(b"text", &stream),
        Err(ParseError { kind: ErrorKind::MalformedEntity, offset: 7 })
    );
}

#[test]
fn tag_list_keeps_the_order_of_pushes() {
    let mut tags = TagVec::new();
    assert!(tags.to_vec().is_empty());
    for s in ["a", "b", "c", "d", "e", "f"] {
        tags.push(s.to_owned());
    }
    assert_eq!(tags.to_vec(), strings(&["a", "b", "c", "d", "e", "f"]));
}

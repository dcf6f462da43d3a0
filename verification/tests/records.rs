use jmdict_couch::document::{get_entries, scan_entries};
use jmdict_couch::entry::{parse_entry, read_id, Entry};
use jmdict_couch::error::{ErrorKind, ParseError, Scope, Warning, WarningKind};
use jmdict_couch::token::{TokenKind, TokenStream};

fn entry_of(xml: &str) -> (Result<Entry, ParseError>, Vec<Warning>) {
    let mut reader = TokenStream::new(xml.as_bytes());
    let mut warnings = Vec::new();
    let _ = reader.next_token();
    let r = parse_entry(&mut reader, &mut warnings);
    (r, warnings)
}

fn kind_of(xml: &str) -> ErrorKind {
    entry_of(xml).0.unwrap_err().kind
}

const RECORD: &str = "<entry>\n<ent_seq>1000220</ent_seq>\n\
<k_ele><keb>明白</keb><ke_pri>ichi1</ke_pri></k_ele>\n\
<r_ele><reb>めいはく</reb><re_pri>ichi1</re_pri></r_ele>\n\
<r_ele><reb>メイハク</reb><re_nokanji/></r_ele>\n\
<sense><pos>&adj-na;</pos><gloss>obvious</gloss><gloss>clear</gloss></sense>\n\
<sense><gloss xml:lang=\"ger\">klar</gloss></sense>\n\
</entry>";

#[test]
fn entry_is_read_whole() {
    let (r, warnings) = entry_of(RECORD);
    let entry = r.unwrap();
    assert_eq!(entry.id, 1000220);
    assert_eq!(entry.kanji_entries.len(), 1);
    assert_eq!(entry.kanji_entries[0].kanji, "明白");
    assert_eq!(entry.kanji_entries[0].priority.to_vec(), vec!["ichi1".to_owned()]);
    assert_eq!(entry.reading_entries.len(), 2);
    assert_eq!(entry.reading_entries[0].kana, "めいはく");
    assert!(!entry.reading_entries[0].no_kanji);
    assert_eq!(entry.reading_entries[1].kana, "メイハク");
    assert!(entry.reading_entries[1].no_kanji);
    assert_eq!(entry.senses.len(), 2);
    assert_eq!(entry.senses[0].part_of_speech, vec!["adj-na".to_owned()]);
    assert_eq!(entry.senses[0].glosses, vec!["obvious".to_owned(), "clear".to_owned()]);
    assert_eq!(entry.senses[0].lang, None);
    assert_eq!(entry.senses[1].lang, Some("ger".to_owned()));
    assert!(warnings.is_empty());
}

#[test]
fn entry_without_identifier_fails() {
    let xml = "<entry><k_ele><keb>明白</keb></k_ele><r_ele><reb>めいはく</reb></r_ele>\
               <sense><gloss>obvious</gloss></sense></entry>";
    assert_eq!(kind_of(xml), ErrorKind::MissingId);
}

#[test]
fn entry_with_identifier_zero_fails() {
    let xml = "<entry><ent_seq>0</ent_seq><k_ele><keb>明白</keb></k_ele>\
               <r_ele><reb>めいはく</reb></r_ele><sense><gloss>obvious</gloss></sense>\
               <sense><gloss>clear</gloss></sense></entry>";
    assert_eq!(kind_of(xml), ErrorKind::MissingId);
    assert_eq!(
        entry_of("<entry><ent_seq>0</ent_seq></entry>").0.unwrap_err(),
        ParseError { kind: ErrorKind::MissingId, offset: 35 }
    );
}

#[test]
fn entry_without_readings_fails() {
    assert_eq!(
        entry_of("<entry><ent_seq>7</ent_seq></entry>").0.unwrap_err(),
        ParseError { kind: ErrorKind::NoReadings, offset: 35 }
    );
    let xml = "<entry><ent_seq>7</ent_seq><k_ele><keb>明白</keb></k_ele>\
               <k_ele><keb>明々白々</keb></k_ele><sense><gloss>obvious</gloss></sense></entry>";
    assert_eq!(kind_of(xml), ErrorKind::NoReadings);
}

#[test]
fn entry_identifier_is_checked_before_the_readings() {
    assert_eq!(kind_of("<entry></entry>"), ErrorKind::MissingId);
}

#[test]
fn entry_identifier_field_must_nest_properly() {
    assert_eq!(
        entry_of("<entry><ent_seq><ent_seq>").0.unwrap_err(),
        ParseError { kind: ErrorKind::NestedId, offset: 25 }
    );
    assert_eq!(
        entry_of("<entry></ent_seq>").0.unwrap_err(),
        ParseError { kind: ErrorKind::MismatchedId, offset: 17 }
    );
    assert_eq!(
        kind_of("<entry><ent_seq>1</ent_seq></ent_seq></entry>"),
        ErrorKind::MismatchedId
    );
}

#[test]
fn entry_identifier_must_be_a_number() {
    assert_eq!(
        entry_of("<entry><ent_seq>12a</ent_seq>").0.unwrap_err(),
        ParseError { kind: ErrorKind::InvalidId, offset: 19 }
    );
    assert_eq!(kind_of("<entry><ent_seq>-1</ent_seq>"), ErrorKind::InvalidId);
    assert_eq!(kind_of("<entry><ent_seq>4294967296</ent_seq>"), ErrorKind::InvalidId);
    assert_eq!(kind_of("<entry><ent_seq>1 2</ent_seq>"), ErrorKind::InvalidId);
    assert_eq!(kind_of("<entry><ent_seq>&n;</ent_seq>"), ErrorKind::Escape);
}

#[test]
fn entry_identifier_forms() {
    let tail = "<r_ele><reb>あ</reb></r_ele></entry>";
    let id = |field: &str| entry_of(&format!("<entry>{}{}", field, tail)).0.unwrap().id;
    assert_eq!(id("<ent_seq>4294967295</ent_seq>"), 4294967295);
    assert_eq!(id("<ent_seq>+12</ent_seq>"), 12);
    assert_eq!(id("<ent_seq>0012</ent_seq>"), 12);
    assert_eq!(id("<ent_seq> 12\n</ent_seq>"), 12);
    assert_eq!(id("<ent_seq>&#49;2</ent_seq>"), 12);
    // the last text of the field wins
    assert_eq!(id("<ent_seq>1<!-- c -->2</ent_seq>"), 2);
    // text outside the field is passed over
    assert_eq!(id("<ent_seq>1</ent_seq>99"), 1);
}

#[test]
fn entry_warns_about_unknown_children() {
    let (r, warnings) =
        entry_of("<entry><ent_seq>5</ent_seq><info/><r_ele><reb>あ</reb><x/></r_ele></entry>");
    assert_eq!(r.unwrap().id, 5);
    assert_eq!(
        warnings,
        vec![
            Warning {
                kind: WarningKind::UnknownTag,
                scope: Scope::Entry,
                offset: 34,
                subject: b"info".to_vec(),
            },
            Warning {
                kind: WarningKind::UnknownTag,
                scope: Scope::Reading,
                offset: 59,
                subject: b"x".to_vec(),
            },
        ]
    );
}

#[test]
fn entry_passes_the_errors_of_its_elements_on() {
    assert_eq!(kind_of("<entry><k_ele></k_ele></entry>"), ErrorKind::EmptyKanji);
    assert_eq!(kind_of("<entry><r_ele></r_ele></entry>"), ErrorKind::EmptyKana);
    assert_eq!(
        kind_of("<entry><sense><pos>n</pos></sense></entry>"),
        ErrorKind::MalformedEntity
    );
    assert_eq!(
        kind_of("<entry><sense><xref></xref><xref>a・b・c</xref></sense></entry>"),
        ErrorKind::AmbiguousCrossReference
    );
    assert_eq!(kind_of("<entry><ent_seq>5</ent_seq>"), ErrorKind::UnexpectedEnd);
    assert_eq!(kind_of("<entry><r_ele><reb>あ</reb>"), ErrorKind::UnexpectedEnd);
    assert_eq!(kind_of("<entry><!x>"), ErrorKind::Markup);
}

#[test]
fn entry_keeps_warnings_that_came_before_an_error() {
    let (r, warnings) = entry_of("<entry><odd/><k_ele>stray</k_ele></entry>");
    assert_eq!(r.unwrap_err().kind, ErrorKind::EmptyKanji);
    assert_eq!(warnings.len(), 2);
}

#[test]
fn identifier_text_is_read_at_the_offset_of_the_stream() {
    let mut stream = TokenStream::new(b"<a>1</a>");
    let _ = stream.next_token();
    assert_eq!(read_id(b"17", &stream), Ok(17));
    assert_eq!(read_id(b"", &stream), Err(ParseError { kind: ErrorKind::InvalidId, offset: 3 }));
    assert_eq!(read_id(b"+", &stream), Err(ParseError { kind: ErrorKind::InvalidId, offset: 3 }));
}

#[test]
fn document_gives_its_records_in_order() {
    let xml = format!(
        "<?xml version=\"1.0\" encoding=\"UTF-8\"?>\n<!DOCTYPE JMdict [\n<!ENTITY adj-na \"adjectival nouns\">\n]>\n\
         <JMdict>\n{}\n<entry><ent_seq>2</ent_seq><r_ele><reb>あ</reb></r_ele></entry>\n</JMdict>\n",
        RECORD
    );
    let mut warnings = Vec::new();
    let entries = get_entries(xml.as_bytes(), &mut warnings).unwrap();
    assert_eq!(entries.len(), 2);
    assert_eq!(entries[0].id, 1000220);
    assert_eq!(entries[1].id, 2);
    assert!(warnings.is_empty());
}

#[test]
fn document_without_records_is_empty() {
    let mut warnings = Vec::new();
    assert_eq!(get_entries(b"", &mut warnings).unwrap().len(), 0);
    assert_eq!(get_entries(b"<JMdict><k_ele>x</k_ele></JMdict>", &mut warnings).unwrap().len(), 0);
    assert!(warnings.is_empty());
}

#[test]
fn document_fails_at_the_first_bad_record() {
    let xml = "<JMdict><entry><ent_seq>1</ent_seq><r_ele><reb>あ</reb></r_ele></entry>\
               <entry><ent_seq>0</ent_seq><r_ele><reb>い</reb></r_ele></entry>\
               <entry><ent_seq>3</ent_seq><r_ele><reb>う</reb></r_ele></entry></JMdict>";
    let mut warnings = Vec::new();
    assert_eq!(
        get_entries(xml.as_bytes(), &mut warnings).unwrap_err().kind,
        ErrorKind::MissingId
    );
}

#[test]
fn document_fails_on_malformed_markup_and_truncation() {
    let mut warnings = Vec::new();
    assert_eq!(
        get_entries(b"<JMdict><!x></JMdict>", &mut warnings).unwrap_err(),
        ParseError { kind: ErrorKind::Markup, offset: 10 }
    );
    assert_eq!(
        get_entries(b"<JMdict><entry><ent_seq>1</ent_seq>", &mut warnings).unwrap_err().kind,
        ErrorKind::UnexpectedEnd
    );
}

#[test]
fn document_collects_warnings_across_records() {
    let xml = "<JMdict><entry><ent_seq>1</ent_seq><a/><r_ele><reb>あ</reb></r_ele></entry>\
               <entry><ent_seq>2</ent_seq><b/><r_ele><reb>い</reb></r_ele></entry></JMdict>";
    let mut warnings = vec![Warning {
        kind: WarningKind::UnexpectedText,
        scope: Scope::Kanji,
        offset: 0,
        subject: vec![],
    }];
    let entries = get_entries(xml.as_bytes(), &mut warnings).unwrap();
    assert_eq!(entries.len(), 2);
    assert_eq!(warnings.len(), 3);
    assert_eq!(warnings[1].subject, b"a".to_vec());
    assert_eq!(warnings[2].subject, b"b".to_vec());
}

#[test]
fn scan_stops_at_the_end_of_the_document() {
    let xml = "<entry><ent_seq>1</ent_seq><r_ele><reb>あ</reb></r_ele></entry>";
    let mut stream = TokenStream::new(xml.as_bytes());
    let mut warnings = Vec::new();
    let entries = scan_entries(&mut stream, &mut warnings).unwrap();
    assert_eq!(entries.len(), 1);
    assert_eq!(stream.buffer_position(), xml.len());
    assert_eq!(stream.next_token().kind, TokenKind::Eof);
}

use jmdict_couch::token::{attributes, Attribute, Token, TokenKind, TokenStream};

fn start(name: &str, content: &str, offset: usize) -> Token {
    Token {
        kind: TokenKind::Start {
            name: name.as_bytes().to_vec(),
            content: content.as_bytes().to_vec(),
        },
        offset,
    }
}

#[test]
fn stream_delivers_tokens_in_document_order() {
    let xml = "<a x=\"1\">  hello &amp; <b/> </a>";
    let mut stream = TokenStream::new(xml.as_bytes());
    assert_eq!(stream.buffer_position(), 0);
    assert_eq!(stream.next_token(), start("a", "a x=\"1\"", 9));
    assert_eq!(stream.buffer_position(), 9);
    assert_eq!(
        stream.next_token(),
        Token { kind: TokenKind::Text { raw: b"hello &amp;".to_vec() }, offset: 23 }
    );
    // an empty element is expanded into a start and an end
    assert_eq!(stream.next_token(), start("b", "b", 27));
    assert_eq!(
        stream.next_token(),
        Token { kind: TokenKind::End { name: b"b".to_vec() }, offset: 27 }
    );
    // text of white space only is skipped
    assert_eq!(
        stream.next_token(),
        Token { kind: TokenKind::End { name: b"a".to_vec() }, offset: 32 }
    );
    assert_eq!(stream.next_token(), Token { kind: TokenKind::Eof, offset: 32 });
    // the end of the document is delivered again
    assert_eq!(stream.next_token(), Token { kind: TokenKind::Eof, offset: 32 });
}

#[test]
fn stream_reports_comments_and_declarations_as_other() {
    let xml = "<?xml version=\"1.0\"?><!-- c --><a></a>";
    let mut stream = TokenStream::new(xml.as_bytes());
    assert_eq!(stream.next_token().kind, TokenKind::Other);
    assert_eq!(stream.next_token().kind, TokenKind::Other);
    assert_eq!(
        stream.next_token().kind,
        TokenKind::Start { name: b"a".to_vec(), content: b"a".to_vec() }
    );
}

#[test]
fn stream_reports_malformed_markup_then_the_end() {
    let xml = "<a><!x></a>";
    let mut stream = TokenStream::new(xml.as_bytes());
    assert_eq!(stream.next_token(), start("a", "a", 3));
    assert_eq!(stream.next_token().kind, TokenKind::Invalid);
    assert_eq!(stream.next_token().kind, TokenKind::Eof);
}

#[test]
fn stream_unescapes_and_decodes() {
    let stream = TokenStream::new(b"");
    assert_eq!(stream.unescape(b"a &lt; b &#x30;"), Some("a < b 0".to_owned()));
    assert_eq!(stream.unescape(b"&n;"), None);
    assert_eq!(stream.unescape(b"a & b"), None);
    assert_eq!(stream.decode("&n;".as_bytes()), "&n;".to_owned());
    assert_eq!(stream.decode(b"a\xffb"), "a\u{fffd}b".to_owned());
}

#[test]
fn attributes_are_listed_in_order() {
    let attrs = attributes(b"gloss", b"gloss xml:lang=\"fre\" g_type='expl'");
    assert_eq!(
        attrs,
        vec![
            Some(Attribute { key: b"xml:lang".to_vec(), value: b"fre".to_vec() }),
            Some(Attribute { key: b"g_type".to_vec(), value: b"expl".to_vec() }),
        ]
    );
    assert_eq!(attributes(b"gloss", b"gloss"), vec![]);
}

#[test]
fn attributes_stop_at_the_first_malformed_one() {
    let attrs = attributes(b"gloss", b"gloss a=\"1\" b=2 c=\"3\"");
    assert_eq!(
        attrs,
        vec![Some(Attribute { key: b"a".to_vec(), value: b"1".to_vec() }), None]
    );
}

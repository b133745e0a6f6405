use ruforo::bbcode2::{Lexer, Token};

#[test]
fn linebreak() {
    let mut t = Lexer::new();
    t.tokenize("a\n\rb\n\r\r\r\rc\r");

    assert_eq!(t.tokens().len(), 5);

    match &t.tokens()[0] {
        Token::Text(text) => assert_eq!("a", text),
        _ => assert!(false, "1st token was not text."),
    }
    assert!(t.tokens()[1] == Token::Linebreak, "2nd token not linebreak.");
    match &t.tokens()[4] {
        Token::Text(text) => assert_eq!("c", text),
        _ => assert!(false, "5th token was not text."),
    }
}

#[test]
fn lexer_sanitize() {
    let mut t = Lexer::new();
    t.tokenize("<strong>HTML</strong>");

    let mut output = String::with_capacity(64);

    for token in t.tokens() {
        match token {
            Token::Text(ref text) => output.push_str(text),
            _ => unreachable!(),
        }
    }

    assert_eq!("&lt;strong&gt;HTML&lt;/strong&gt;", output);
}

#[test]
fn tag_and_close() {
    let mut t = Lexer::new();
    t.tokenize("[b]Bold[/b]");

    assert_eq!(t.tokens().len(), 3);

    match &t.tokens()[0] {
        Token::Tag(tag, arg) => {
            assert_eq!("b", tag);
            assert_eq!(&None, arg);
        }
        _ => assert!(false, "1st token was not a tag."),
    }
    match &t.tokens()[1] {
        Token::Text(text) => assert_eq!("Bold", text),
        _ => assert!(false, "2nd token was not text."),
    }
    match &t.tokens()[2] {
        Token::TagClose(tag) => {
            assert_eq!("b", tag);
        }
        _ => assert!(false, "3rd token was not a closing tag."),
    }
}

#[test]
fn tag_close_terminates() {
    let mut t = Lexer::new();
    t.tokenize("[b]Bold[//b]");

    assert_eq!(t.tokens().len(), 3);

    match &t.tokens()[2] {
        Token::Text(text) => {
            assert_eq!("[//b]", text);
        }
        _ => assert!(false, "3rd token was not text."),
    }
}

#[test]
fn tag_open_terminates() {
    let mut t = Lexer::new();
    t.tokenize("[b]Bold[b/b]");

    assert_eq!(t.tokens().len(), 3);

    match &t.tokens()[2] {
        Token::Text(text) => {
            assert_eq!("[b/b]", text);
        }
        _ => assert!(false, "3rd token was not text."),
    }
}

#[test]
fn lexer_tag_with_arg() {
    let mut t = Lexer::new();
    t.tokenize("[url=https://zombo.com]ZOMBO[/url]");

    assert_eq!(t.tokens().len(), 3);

    match &t.tokens()[0] {
        Token::Tag(tag, arg) => {
            assert_eq!("url", tag);
            assert_eq!(&Some("=https://zombo.com".to_string()), arg);
        }
        _ => assert!(false, "1st token was not a tag."),
    }
    match &t.tokens()[1] {
        Token::Text(text) => assert_eq!("ZOMBO", text),
        _ => assert!(false, "2nd token was not text."),
    }
    match &t.tokens()[2] {
        Token::TagClose(tag) => {
            assert_eq!("url", tag);
        }
        _ => assert!(false, "3rd token was not a closing tag."),
    }
}

#[test]
fn tag_with_strange_args() {
    // This content can be parsed as correct because the Lexer does not care
    // about the validity of the arguments.
    const GIBBERISH: &str = "   👍 wow nice \"[test]\"";
    let mut t = Lexer::new();
    t.tokenize(&format!("[url{}]Text[/url]", GIBBERISH));

    assert_eq!(t.tokens().len(), 3);
    match &t.tokens()[0] {
        Token::Tag(tag, arg) => {
            assert_eq!("url", tag);
            assert_eq!(&Some(GIBBERISH.to_string()), arg);
        }
        _ => assert!(false, "1st token was not a tag."),
    }
    match &t.tokens()[1] {
        Token::Text(text) => assert_eq!("Text", text),
        _ => assert!(false, "2nd token was not text."),
    }
    match &t.tokens()[2] {
        Token::TagClose(tag) => {
            assert_eq!("url", tag);
        }
        _ => assert!(false, "3rd token was not a closing tag."),
    }
}

#[test]
fn tag_with_strange_broken_args() {
    const GIBBERISH: &str = "   👍 wow nice [ test ]";
    let mut t = Lexer::new();
    t.tokenize(&format!("[url{}]Text[/url]", GIBBERISH));

    assert_eq!(t.tokens().len(), 3);

    match &t.tokens()[0] {
        Token::Text(t1) => match &t.tokens()[1] {
            Token::Text(t2) => {
                assert_eq!(format!("{}{}", t1, t2), format!("[url{}]Text", GIBBERISH));
            }
            _ => assert!(false, "2nd token was not text."),
        },
        _ => assert!(false, "1st token was not text."),
    }
    match &t.tokens()[2] {
        Token::TagClose(tag) => {
            assert_eq!(tag, "url");
        }
        _ => assert!(false, "3rd token was not a tag close."),
    }
}

#[test]
fn tag_with_strange_broken_newline_args() {
    // parse a tag with a linebreak
    let mut t = Lexer::new();
    t.tokenize("[quote\nbox]");

    assert_eq!(t.tokens().len(), 3);

    if let Token::Text(ref text) = t.tokens()[0] {
        assert_eq!(text, "[quote");
    } else {
        assert!(false, "1st token was not text.");
    }

    assert!(
        Token::Linebreak == t.tokens()[1],
        "2nd token was not a linebreak."
    );

    if let Token::Text(ref text) = t.tokens()[2] {
        assert_eq!(text, "box]");
    } else {
        assert!(false, "3rd token was not text.");
    }
}

#[test]
fn url() {
    let mut t = Lexer::new();
    t.tokenize("<https://zombo.com/>");

    let mut output = String::with_capacity(64);
    let mut found_url = false;

    for token in t.tokens() {
        match token {
            Token::Text(ref text) => output.push_str(text),
            Token::Url(ref url) => {
                found_url = true;
                assert_eq!("https://zombo.com/", url);
                output.push_str(url)
            }
            _ => unreachable!(),
        }
    }

    assert!(found_url, "Did not encounter URL token.");
    assert_eq!("&lt;https://zombo.com/&gt;", output);
}

use ruforo::bbcode::Token;
use ruforo::bbcode2::Token as Token2;

#[test]
fn token_reverse_null() {
    let inst = Token::Null;
    assert_eq!(inst.as_raw(), "");

    let inst = Token2::Null;
    assert_eq!(inst.to_inner_string(), "");
    assert_eq!(inst.to_tag_string(), "");
}

#[test]
fn token_reverse_linebreak() {
    let inst = Token::Linebreak("\n\r");
    assert_eq!(inst.as_raw(), "\n\r");

    let inst = Token::Linebreak("\n\r");
    assert_eq!(inst.as_raw(), "\n\r");

    let inst = Token2::Linebreak;
    assert_eq!(inst.to_inner_string(), "\n\r");
    assert_eq!(inst.to_tag_string(), "\n\r");
}

#[test]
fn token_reverse_tag() {
    let inst = Token::Tag("[foo]", "foo", None);
    assert_eq!(inst.as_raw(), "[foo]");

    let inst = Token::Tag(
        "[url=https://zombo.com/]",
        "url",
        Some("=https://zombo.com/"),
    );
    assert_eq!(inst.as_raw(), "[url=https://zombo.com/]");

    let tag = "quotebox".to_string();
    let inst = Token2::Tag(tag, None);
    assert_eq!(inst.to_inner_string(), "quotebox");
    assert_eq!(inst.to_tag_string(), "[quotebox]");

    let tag2 = "url".to_string();
    let inst2 = Token2::Tag(tag2, Some("=https://zombo.com/".to_string()));
    assert_eq!(inst2.to_inner_string(), "url=https://zombo.com/");
    assert_eq!(inst2.to_tag_string(), "[url=https://zombo.com/]");
}

#[test]
fn token_reverse_tag_close() {
    let inst = Token::TagClose("[/foo]", "foo");
    assert_eq!(inst.as_raw(), "[/foo]");

    let tag = "quotebox".to_string();
    let inst = Token2::TagClose(tag);
    assert_eq!(inst.to_inner_string(), "quotebox");
    assert_eq!(inst.to_tag_string(), "[/quotebox]");
}

#[test]
fn token_reverse_text() {
    let text = "text input :)";
    let inst = Token::Text(text);
    assert_eq!(inst.as_raw(), text);

    let text = "text input :)".to_string();
    let inst = Token2::Text(text);
    assert_eq!(inst.to_inner_string(), "text input :)");
    assert_eq!(inst.to_tag_string(), "text input :)");
}

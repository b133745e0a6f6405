use ruforo::bbcode::tokenize::tokenize;
use ruforo::bbcode::Token;

#[test]
fn empty() {
    let input = "";
    let tokens = tokenize(input).unwrap().1;

    assert_eq!(tokens.len(), 0);
}

#[test]
fn tokenize_linebreaks() {
    let inputn = "Hello, world!\nWorld, hello!";
    let inputrn = "Hello, world!\r\nWorld, hello!";

    let tokens = tokenize(inputn).unwrap().1;
    assert_eq!(tokens.len(), 3);
    assert_eq!(tokens[0], Token::Text("Hello, world!"));
    assert_eq!(tokens[1], Token::Linebreak("\n"));
    assert_eq!(tokens[2], Token::Text("World, hello!"));

    let tokens = tokenize(inputrn).unwrap().1;
    assert_eq!(tokens.len(), 3);
    assert_eq!(tokens[0], Token::Text("Hello, world!"));
    assert_eq!(tokens[1], Token::Linebreak("\r\n"));
    assert_eq!(tokens[2], Token::Text("World, hello!"));
}

#[test]
fn links() {
    let input = "Hello, this is a link: https://google.com, but it's [i]before[/i] a tag!";
    let tokens = tokenize(input).unwrap().1;
    assert_eq!(tokens.len(), 7);
    assert_eq!(tokens[0], Token::Text("Hello, this is a link: "));
    assert_eq!(tokens[1], Token::Url("https://google.com"));
    assert_eq!(tokens[2], Token::Text(", but it's "));
    assert_eq!(tokens[3], Token::Tag("[i]", "i", None));
    assert_eq!(tokens[4], Token::Text("before"));
    assert_eq!(tokens[5], Token::TagClose("[/i]", "i"));
    assert_eq!(tokens[6], Token::Text(" a tag!"));

    let input = "Hello, this is a [u]tag[/u], but it's before this https://google.com link!";
    let tokens = tokenize(input).unwrap().1;
    assert_eq!(tokens.len(), 7);
    assert_eq!(tokens[0], Token::Text("Hello, this is a "));
    assert_eq!(tokens[1], Token::Tag("[u]", "u", None));
    assert_eq!(tokens[2], Token::Text("tag"));
    assert_eq!(tokens[3], Token::TagClose("[/u]", "u"));
    assert_eq!(tokens[4], Token::Text(", but it's before this "));
    assert_eq!(tokens[5], Token::Url("https://google.com"));
    assert_eq!(tokens[6], Token::Text(" link!"));
}

#[test]
fn tag_basic() {
    let input = "[b]Bold[/b]";
    let tokens = tokenize(input).unwrap().1;

    assert_eq!(tokens.len(), 3);
    assert_eq!(tokens[0], Token::Tag("[b]", "b", None));
    assert_eq!(tokens[1], Token::Text("Bold"));
    assert_eq!(tokens[2], Token::TagClose("[/b]", "b"));

    let input = "私は猫[i]です[/i]。";
    let tokens = tokenize(input).unwrap().1;
    assert_eq!(tokens.len(), 5);
    assert_eq!(tokens[0], Token::Text("私は猫"));
    assert_eq!(tokens[1], Token::Tag("[i]", "i", None));
    assert_eq!(tokens[2], Token::Text("です"));
    assert_eq!(tokens[3], Token::TagClose("[/i]", "i"));
    assert_eq!(tokens[4], Token::Text("。"));
}

#[test]
fn tag_double() {
    let input = "[b][i]Bold and Italic[/b]";
    let tokens = tokenize(input).unwrap().1;

    assert_eq!(tokens.len(), 4);
    assert_eq!(tokens[0], Token::Tag("[b]", "b", None));
    assert_eq!(tokens[1], Token::Tag("[i]", "i", None));
    assert_eq!(tokens[2], Token::Text("Bold and Italic"));
    assert_eq!(tokens[3], Token::TagClose("[/b]", "b"));
}

#[test]
fn tokenize_tag_with_arg() {
    let input = "[url=https://zombo.com]ZOMBO[/url]";
    let tokens = tokenize(input).unwrap().1;

    assert_eq!(tokens.len(), 3);
    assert_eq!(
        tokens[0],
        Token::Tag("[url=https://zombo.com]", "url", Some("=https://zombo.com"))
    );
    assert_eq!(tokens[1], Token::Text("ZOMBO"));
    assert_eq!(tokens[2], Token::TagClose("[/url]", "url"));
}

#[test]
fn tag_with_empty_arg() {
    let input = "[b ]";
    let tokens = tokenize(input).unwrap().1;
    assert_eq!(tokens.len(), 1);
    assert_eq!(tokens[0], Token::Tag(input, "b", Some(" ")));

    let input = "[b=]";
    let tokens = tokenize(input).unwrap().1;
    assert_eq!(tokens.len(), 1);
    assert_eq!(tokens[0], Token::Tag(input, "b", Some("=")));

    let input = "[b= ]";
    let tokens = tokenize(input).unwrap().1;
    assert_eq!(tokens.len(), 1);
    assert_eq!(tokens[0], Token::Tag(input, "b", Some("= ")));
}

#[test]
fn tag_with_false_open() {
    let input = "[[b[b]Bold[/b]";
    let tokens = tokenize(input).unwrap().1;

    assert_eq!(tokens.len(), 5);
    assert_eq!(tokens[0], Token::Text("["));
    assert_eq!(tokens[1], Token::Text("[b"));
    assert_eq!(tokens[2], Token::Tag("[b]", "b", None));
    assert_eq!(tokens[3], Token::Text("Bold"));
    assert_eq!(tokens[4], Token::TagClose("[/b]", "b"));
}

#[test]
fn tag_with_quoted_arg() {
    let input = "[url=\"https://zombo.com\"]ZOMBO[/url]";
    let tokens = tokenize(input).unwrap().1;

    assert_eq!(tokens.len(), 3);
    assert_eq!(
        tokens[0],
        Token::Tag(
            "[url=\"https://zombo.com\"]",
            "url",
            Some("=\"https://zombo.com\"")
        )
    );
    assert_eq!(tokens[1], Token::Text("ZOMBO"));
    assert_eq!(tokens[2], Token::TagClose("[/url]", "url"));
}

#[test]
fn tag_with_multi_arg() {
    let input = "[tag abc=123 xyz=\"000\"]Text[/tag]";
    let tokens = tokenize(input).unwrap().1;

    assert_eq!(tokens.len(), 3);
    assert_eq!(
        tokens[0],
        Token::Tag(
            "[tag abc=123 xyz=\"000\"]",
            "tag",
            Some(" abc=123 xyz=\"000\"")
        )
    );
    assert_eq!(tokens[1], Token::Text("Text"));
    assert_eq!(tokens[2], Token::TagClose("[/tag]", "tag"));
}

#[test]
fn text() {
    let input = "Hello, world!";
    let tokens = tokenize(input).unwrap().1;

    assert_eq!(tokens.len(), 1);
    assert_eq!(tokens[0], Token::Text(input));
}

use ruforo::bbcode2::parse;
use ruforo::bbcode2::tag::{open_embed_from_parsed, open_img_tag, open_url_tag};
use ruforo::bbcode2::Tag;
use ruforo::weburl::ParsedUrl;
use ruforo::bbcode2::Element;

#[test]
fn inline_tags() {
    assert_eq!("<b>Test</b>", parse("[b]Test[/b]"));
    assert_eq!("<i>Test</i>", parse("[i]Test[/i]"));
    assert_eq!("<u>Test</u>", parse("[u]Test[/u]"));
    assert_eq!("<s>Test</s>", parse("[s]Test[/s]"));

    assert_eq!("<b><i>Test</i></b>", parse("[b][i]Test[/i][/b]"));
    assert_eq!("<b><i>Test</i></b>", parse("[b][i]Test[/i]"));
    assert_eq!("<b><i>Test</i></b>", parse("[b][i]Test[/b]"));
    assert_eq!("<b><i>Test</i></b>", parse("[b][i]Test"));
}

#[test]
fn mod_linebreaks() {
    assert_eq!("Foo<br />bar", parse("Foo\n\rbar"));
    assert_eq!("Foo<br />bar", parse("Foo\r\nbar"));
    assert_eq!("Foo<br />bar", parse("Foo\r\n\rbar"));
    assert_eq!("Foo<br />bar", parse("Foo\nbar"));

    assert_eq!("Foo<br /><br /><br />bar", parse("Foo\n\n\nbar"));
    assert_eq!(
        "<b>Foo<br /><br /><br />bar</b>",
        parse("[b]Foo\n\n\nbar[/b]")
    );
    assert_eq!("<b>Foo<br /><br /><br />bar</b>", parse("[b]Foo\n\n\nbar"));
}

#[test]
fn misc() {
    assert_eq!("<hr />", parse("[hr]"));
    assert_eq!("<hr />", parse("[hr][/hr]"));
    assert_eq!("Foo<hr />Bar", parse("Foo[hr]Bar"));
    assert_eq!("Foo<hr />Bar", parse("Foo[hr]Bar[/hr]"));
    assert_eq!("Foo<hr />Bar", parse("Foo[hr][/hr]Bar"));
    assert_eq!("<b>Foo<hr />Bar</b>", parse("[b]Foo[hr]Bar"));
}

#[test]
fn test_parse_basic_tags() {
    assert_eq!(
        parse("Text is [i]italic[/i] and [b]bold[/b]!"),
        "Text is <i>italic</i> and <b>bold</b>!"
    );

    assert_eq!(
        parse("Text is [b]bold and [i]italics[/i][/b]!"),
        "Text is <b>bold and <i>italics</i></b>!"
    )
}

#[test]
fn test_parse_img_tags() {
    const IMG_URL: &str = "https://zombo.com/images/zombocom.png";

    // unitiatied
    assert_eq!(parse("[/img]"), "");
    // empty
    assert_eq!(parse("[img][/img]"), "");
    // unterminated
    assert_eq!(
        parse(&format!("[img]{}", IMG_URL)),
        format!("<img src=\"{}\" />", IMG_URL)
    );
    // terminated
    assert_eq!(
        parse(&format!("[img]{}[/img]", IMG_URL)),
        format!("<img src=\"{}\" />", IMG_URL)
    );
    // continued
    assert_eq!(
        parse(&format!("[img]{}[/img] [b]zombocom [i]!![/i][/b]", IMG_URL)),
        format!("<img src=\"{}\" /> <b>zombocom <i>!!</i></b>", IMG_URL)
    );
    // errored
    assert_eq!(
        parse(&format!("[img]{}[/img]", "this is not a url")),
        format!("[img]{}[/img]", "this is not a url")
    );
}

#[test]
fn test_parse_incomplete_tag_pairs() {
    assert_eq!(parse("[b]Text[/b]"), "<b>Text</b>");
    assert_eq!(parse("[b]Text"), "<b>Text</b>");
}

#[test]
fn test_parse_linebreaks() {
    assert_eq!(
        parse("Line 1\r\nLine 2\nLine 3\r\n\r\nLine 5"),
        "Line 1<br />Line 2<br />Line 3<br /><br />Line 5"
    );
}

#[test]
fn test_parse_url_tags() {
    const PAGE_URL: &str = "https://zombo.com/";

    assert_eq!(
        parse(&format!("[url]{}[/url]", PAGE_URL)),
        format!("<a href=\"{}\" rel=\"nofollow\">{}</a>", PAGE_URL, PAGE_URL)
    );
    assert_eq!(
        parse(&format!("[url]{}", PAGE_URL)),
        format!("<a href=\"{}\" rel=\"nofollow\">{}</a>", PAGE_URL, PAGE_URL)
    );
}

#[test]
fn open_embed_tags_change_their_element() {
    let mut el1 = Element::new_text(&"https://zombo.com/images/zombocom.png".to_owned());
    assert_eq!(open_img_tag(&mut el1), "<img src=\"https://zombo.com/images/zombocom.png\" />");
    assert_eq!(el1.get_contents(), None);
    assert!(!el1.is_broken());

    let mut el2 = Element::new_text(&"this is not a url".to_owned());
    assert_eq!(open_img_tag(&mut el2), "[img]this is not a url");
    assert!(el2.is_broken());
    assert_eq!(el2.get_contents().map(|c| c.as_str()), Some("this is not a url"));

    let mut el3 = Element::new_root();
    assert_eq!(open_img_tag(&mut el3), "[img]");
    assert!(el3.is_broken());

    let mut el4 = Element::new_text(&"https://zombo.com/".to_owned());
    assert_eq!(
        open_url_tag(&mut el4),
        "<a href=\"https://zombo.com/\" rel=\"nofollow\">https://zombo.com/</a>"
    );
    assert_eq!(el4.get_contents(), None);

    let mut el5 = Element::new_text(&"ftp://example.com/".to_owned());
    assert_eq!(open_url_tag(&mut el5), "[url]ftp://example.com/");
    assert!(el5.is_broken());
}

#[test]
fn embed_from_a_given_parse() {
    let mut el = Element::new_text(&"x".to_owned());
    let parsed = ParsedUrl { scheme: "https".to_owned(), serialization: "https://a.example/".to_owned() };
    assert_eq!(
        open_embed_from_parsed("img", &mut el, Some(parsed), false),
        "<img src=\"https://a.example/\" />"
    );
    assert_eq!(el.get_contents(), None);
    let mut el = Element::new_text(&"x".to_owned());
    let ftp = ParsedUrl { scheme: "ftp".to_owned(), serialization: "ftp://a.example/".to_owned() };
    assert_eq!(open_embed_from_parsed("url", &mut el, Some(ftp), true), "[url]x");
    assert!(el.is_broken());
    assert_eq!(
        Tag::open_url_tag_to(&Element::new_root(), Some("https://a.example/")),
        "<a class=\"bbCode tagUrl\" ref=\"nofollow\" href=\"https://a.example/\">"
    );
    assert_eq!(Tag::open_url_tag_to(&Element::new_root(), None), "[]");
}

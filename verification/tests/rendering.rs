use ruforo::bbcode::tokenize::tokenize;
use ruforo::bbcode::tree::Tree;
use ruforo::bbcode::{Constructor, Element, SafeHtml, Smilies, Tag, Token};
use ruforo::bbcode2;
use ruforo::frontend::format_request_time;
use ruforo::text::{ascii_lowercase, parse_unsigned_exec, split_whitespace};

#[test]
fn tag_names_ignore_case() {
    assert!(Tag::get_by_name("b") == Tag::Bold);
    assert!(Tag::get_by_name("B") == Tag::Bold);
    assert!(Tag::get_by_name("URL") == Tag::Link);
    assert!(Tag::get_by_name("Color") == Tag::Color);
    assert!(Tag::get_by_name("quote") == Tag::Invalid);
    assert!(Tag::get_by_name("bb") == Tag::Invalid);
}

#[test]
fn simple_tags() {
    assert_eq!(Tag::open_simple_tag("b").take(), "<b>");
    assert_eq!(Tag::close_simple_tag("span").take(), "</span>");
    assert_eq!(Tag::self_closing_tag("br").take(), "<br />");
}

#[test]
fn color_tag() {
    let token = Token::Tag("[color=#ff0000]", "color", Some("=#ff0000"));
    let mut el = Element::new_from_token(&token);
    assert_eq!(
        Tag::open_color_tag(&mut el).take(),
        "<span class=\"bbCode tagColor\" style=\"color: #ff0000\">"
    );
    assert!(!el.is_broken());

    let token = Token::Tag("[color=red]", "color", Some("=red"));
    let mut el = Element::new_from_token(&token);
    assert_eq!(
        Tag::open_color_tag(&mut el).take(),
        "<span class=\"bbCode tagColor\" style=\"color: red\">"
    );

    // The list holds "indigo " with a space, which no argument can match.
    let token = Token::Tag("[color=indigo]", "color", Some("=indigo"));
    let mut el = Element::new_from_token(&token);
    assert_eq!(Tag::open_color_tag(&mut el).take(), "[color=indigo]");
    assert!(el.is_broken());

    let token = Token::Tag("[color=<x>]", "color", Some("=<x>"));
    let mut el = Element::new_from_token(&token);
    assert_eq!(Tag::open_color_tag(&mut el).take(), "[color=&lt;x&gt;]");
}

#[test]
fn image_tag() {
    let token = Token::Tag("[img]", "img", None);
    let mut el = Element::new_from_token(&token);
    assert_eq!(
        Tag::fill_img_tag(&mut el, "https://example.com/a.png").take(),
        "<img src=\"https://example.com/a.png\" />"
    );
    assert!(!el.is_broken());

    let mut el = Element::new_from_token(&token);
    assert_eq!(
        Tag::fill_img_tag(&mut el, "javascript:alert(\"x\")").take(),
        "javascript:alert(&quot;x&quot;)"
    );
    assert!(el.is_broken());
}

#[test]
fn url_tag() {
    let token = Token::Tag("[url=https://example.com]", "url", Some("=https://example.com"));
    let mut el = Element::new_from_token(&token);
    let html = Tag::fill_url_tag(&mut el, "site", SafeHtml::sanitize("site"));
    assert_eq!(
        html.take(),
        "<a class=\"bbCode tagUrl\" ref=\"nofollow\" href=\"https://example.com/\">site"
    );

    let token = Token::Tag("[url=ftp://example.com]", "url", Some("=ftp://example.com"));
    let mut el = Element::new_from_token(&token);
    let html = Tag::fill_url_tag(&mut el, "site", SafeHtml::sanitize("site"));
    assert_eq!(html.take(), "site");
    assert!(el.is_broken());
    assert_eq!(Tag::open_url_tag(&el).take(), "[url=ftp://example.com]");

    let token = Token::Tag("[url]", "url", None);
    let mut el = Element::new_from_token(&token);
    let html = Tag::fill_url_tag(&mut el, "not a url", SafeHtml::sanitize("not a url"));
    assert_eq!(html.take(), "not a url");
    assert!(el.is_broken());
}

#[test]
fn constructor_tags() {
    let con = Constructor::new();
    let bold = Token::Tag("[b]", "b", None);
    let mut ast = Tree::new(Element::new_root());
    let b = ast.append(0, Element::new_from_token(&bold));
    ast.append(b, Element::new_from_text("x < y"));
    assert_eq!(con.build(&ast).take(), "<b>x &lt; y</b>");
}

#[test]
fn constructor_link_in_link_is_text() {
    let con = Constructor::new();
    let outer = Token::Tag("[url=https://a.example]", "url", Some("=https://a.example"));
    let inner = Token::Tag("[url=https://b.example]", "url", Some("=https://b.example"));
    let mut ast = Tree::new(Element::new_root());
    let a = ast.append(0, Element::new_from_token(&outer));
    ast.append(a, Element::new_from_token(&inner));
    assert_eq!(
        con.build(&ast).take(),
        "<a class=\"bbCode tagUrl\" ref=\"nofollow\" href=\"https://a.example/\">[url=https://b.example]</a>"
    );
}

#[test]
fn smilies_from_tuples_longest_first() {
    let smilies = Smilies::new_from_tuples(vec![
        (":)".to_string(), "a".to_string()),
        (":D".to_string(), "abc".to_string()),
        (":P".to_string(), "ab".to_string()),
    ]);
    let order: Vec<String> = smilies.iter().map(|(code, _)| code.clone()).collect();
    assert_eq!(order, vec![":D", ":P", ":)"]);
    assert_eq!(smilies.count(), 3);
}

#[test]
fn sanitize_without_smilies() {
    let none = Smilies::new_from_tuples(Vec::new());
    let input = "<a href='x'>&</a>";
    assert_eq!(
        SafeHtml::sanitize_and_replace_smilies(input, &none).take(),
        SafeHtml::sanitize(input).take()
    );
}

#[test]
fn tokenize_keeps_text() {
    for input in ["[[b[b]Bold[/b]", "a\r\nb https://example.com, c", "[url=x]y[/url]\n[/]"] {
        let (rest, tokens) = tokenize(input).unwrap();
        let mut text: String = tokens.iter().map(|t| t.as_raw()).collect();
        text.push_str(rest);
        assert_eq!(text, input);
    }
}

#[test]
fn tokenize_stops_where_no_reading_applies() {
    // A bracket with a run of multi-byte text takes more characters than there are.
    let (rest, tokens) = tokenize("[私").unwrap();
    assert_eq!(tokens.len(), 0);
    assert_eq!(rest, "[私");
}

#[test]
fn request_time_text() {
    assert_eq!(format_request_time(0), "0μs");
    assert_eq!(format_request_time(5000), "5000μs");
    assert_eq!(format_request_time(5001), "5ms");
    assert_eq!(format_request_time(123456), "123ms");
}

#[test]
fn bbcode2_link_tag_with_argument() {
    let el = bbcode2::Element::new_from_token(&bbcode2::Token::Tag(
        "url".to_string(),
        Some("=https://example.com".to_string()),
    ));
    assert_eq!(
        bbcode2::Tag::open_url_tag(&el),
        "<a class=\"bbCode tagUrl\" ref=\"nofollow\" href=\"https://example.com/\">"
    );
    let el = bbcode2::Element::new_from_token(&bbcode2::Token::Tag("url".to_string(), Some("=x".to_string())));
    assert_eq!(bbcode2::Tag::open_url_tag(&el), "[url=x]");
}

#[test]
fn text_helpers() {
    assert_eq!(parse_unsigned_exec("4294967295", 4294967295), Some(4294967295));
    assert_eq!(parse_unsigned_exec("4294967296", 4294967295), None);
    assert_eq!(parse_unsigned_exec("+12", 100), Some(12));
    assert_eq!(parse_unsigned_exec("+", 100), None);
    assert_eq!(parse_unsigned_exec("", 100), None);
    assert_eq!(parse_unsigned_exec("-1", 100), None);
    assert_eq!(parse_unsigned_exec("1a", 100), None);
    assert_eq!(split_whitespace("  a\u{3000}bc\t d "), vec!["a", "bc", "d"]);
    assert!(split_whitespace(" \n ").is_empty());
    let chars: Vec<char> = "AbC-Ü".chars().collect();
    assert_eq!(ascii_lowercase(&chars), "abc-Ü");
}

use ruforo::bbcode::ast::{ASTElement, GroupType};
use ruforo::bbcode::tree::Tree;
use ruforo::bbcode::{BBCodeLexer, BBCodeTokenizer, HTMLConstructor, Instruction};

/// Tokenizes, groups and renders BBCode without scaled measures.
fn render(input: &str, preserve_empty: bool) -> String {
    let mut tokenizer = BBCodeTokenizer::new();
    assert!(tokenizer.can_tokenize(input));
    let instructions = tokenizer.tokenize(input).clone();
    let mut lexer = BBCodeLexer::new(preserve_empty);
    lexer.start();
    for instruction in &instructions {
        assert!(lexer.execute(instruction).is_none());
    }
    let root = lexer.finish();
    let mut constructor = HTMLConstructor::new(64, true);
    constructor.construct(lexer.tree(), root)
}

#[test]
fn tokenizer_tags_and_text() {
    let mut t = BBCodeTokenizer::new();
    let insts = t.tokenize("[b]Bold[/b]").clone();
    assert_eq!(
        insts,
        vec![
            Instruction::Tag("b".to_string(), None),
            Instruction::Text("Bold".to_string()),
            Instruction::Tag("/b".to_string(), None),
        ]
    );
}

#[test]
fn tokenizer_argument_and_entities() {
    let mut t = BBCodeTokenizer::new();
    let insts = t.tokenize("[url=a<b]x>y").clone();
    assert_eq!(
        insts,
        vec![
            Instruction::Tag("url".to_string(), Some("a&ltb".to_string())),
            Instruction::Text("x&gty".to_string()),
        ]
    );
}

#[test]
fn tokenizer_breaks() {
    let mut t = BBCodeTokenizer::new();
    let insts = t.tokenize("one\ntwo\n\tthree").clone();
    assert_eq!(
        insts,
        vec![
            Instruction::Text("one".to_string()),
            Instruction::Linebreak,
            Instruction::Text("two".to_string()),
            Instruction::Parabreak("\n\t".to_string()),
            Instruction::Text("three".to_string()),
        ]
    );
}

#[test]
fn tokenizer_escape_replaces_text() {
    // An escaped special character replaces the text read before it.
    let mut t = BBCodeTokenizer::new();
    let insts = t.tokenize("ab\\<c").clone();
    assert_eq!(insts, vec![Instruction::Text("&ltc".to_string())]);
}

#[test]
fn tokenizer_cannot_read_argument_without_name() {
    let t = BBCodeTokenizer::new();
    assert!(!t.can_tokenize("[=x]"));
    assert!(t.can_tokenize("[=]"));
    assert!(t.can_tokenize("[b=x]"));
}

#[test]
fn tokenizer_never_emits_markup() {
    let mut t = BBCodeTokenizer::new();
    let insts = t.tokenize("<script>'\"</script>").clone();
    for inst in &insts {
        match inst {
            Instruction::Text(s) | Instruction::Tag(s, _) => {
                assert!(!s.contains('<') && !s.contains('>') && !s.contains('"') && !s.contains('\''));
            }
            Instruction::Null => panic!("null instruction"),
            _ => {}
        }
    }
}

#[test]
fn lexer_bold() {
    assert_eq!(render("[b]Bold[/b]", false), "<b>Bold</b>");
}

#[test]
fn lexer_unknown_tag_is_text() {
    assert_eq!(render("[foo]x", false), "[foo]x");
    assert_eq!(render("[foo=bar]x", false), "[foo=bar]x");
}

#[test]
fn lexer_url_text() {
    assert_eq!(
        render("[url]https://example.com[/url]", false),
        "<a href=\"https://example.com\" rel=\"nofollow\">https://example.com</a>"
    );
}

#[test]
fn lexer_url_without_scheme() {
    assert_eq!(
        render("[url=example.com]site[/url]", false),
        "<a href=\"http://example.com\" rel=\"nofollow\">site</a>"
    );
}

#[test]
fn lexer_image() {
    assert_eq!(
        render("[img]https://example.com/a.png[/img]", false),
        "<img src=\"https://example.com/a.png\">"
    );
}

#[test]
fn lexer_image_wrong_extension_is_broken() {
    // The empty image group and the broken one are both removed when they close.
    assert_eq!(render("[img]https://example.com/a.svg[/img]", false), "");
}

#[test]
fn lexer_colour() {
    assert_eq!(
        render("[color=#ff0000]red[/color]", false),
        "<span style=\"color:#ff0000;\">red</span>"
    );
    assert_eq!(
        render("[colour=Red]red[/colour]", false),
        "<span style=\"color:Red;\">red</span>"
    );
}

#[test]
fn lexer_linebreak() {
    assert_eq!(render("a\nb", false), "a<br />b");
}

#[test]
fn lexer_code_ignores_tags() {
    assert_eq!(render("[code][b]x[/code]", false), "<code>[b]x</code>");
}

#[test]
fn html_constructor_kaput_without_pretty_print() {
    let mut tree = Tree::new(ASTElement::new(GroupType::Document));
    let mut el = ASTElement::new(GroupType::Kaput(Box::new(GroupType::Attachment), "attach"));
    el.set_arg("12");
    el.add_text("file");
    tree.append(0, el);
    let mut constructor = HTMLConstructor::new(16, false);
    assert_eq!(constructor.construct(&tree, 0), "[attach=12]file[/attach]");
    // The output of earlier calls is kept.
    assert_eq!(
        constructor.construct(&tree, 0),
        "[attach=12]file[/attach][attach=12]file[/attach]"
    );
    let mut pretty = HTMLConstructor::new(16, true);
    assert_eq!(pretty.construct(&tree, 0), "");
}

#[test]
fn html_constructor_lists() {
    let mut tree = Tree::new(ASTElement::new(GroupType::Document));
    let mut list = ASTElement::new(GroupType::List);
    list.set_arg("a");
    let l = tree.append(0, list);
    let item = tree.append(l, ASTElement::new(GroupType::ListItem));
    let mut text = ASTElement::new(GroupType::Text);
    text.add_text("one");
    tree.append(item, text);
    let mut constructor = HTMLConstructor::new(16, true);
    assert_eq!(constructor.construct(&tree, 0), "<ol type=\"a\"><li>one</li></ol>");
}

#[test]
fn html_constructor_groups_without_argument_render_only_children() {
    for kind in [
        GroupType::Colour,
        GroupType::Opacity,
        GroupType::Size,
        GroupType::Url,
        GroupType::Email,
        GroupType::Figure,
        GroupType::Indent,
        GroupType::Embed,
        GroupType::Header,
    ] {
        let mut tree = Tree::new(ASTElement::new(GroupType::Document));
        let g = tree.append(0, ASTElement::new(kind));
        let mut text = ASTElement::new(GroupType::Text);
        text.add_text("plain");
        tree.append(g, text);
        let mut constructor = HTMLConstructor::new(16, true);
        assert_eq!(constructor.construct(&tree, 0), "plain");
    }
    let mut tree = Tree::new(ASTElement::new(GroupType::Document));
    let mut colour = ASTElement::new(GroupType::Colour);
    colour.set_arg("red");
    let g = tree.append(0, colour);
    let mut text = ASTElement::new(GroupType::Text);
    text.add_text("x");
    tree.append(g, text);
    let mut constructor = HTMLConstructor::new(16, true);
    assert_eq!(constructor.construct(&tree, 0), "<span style=\"color:red;\">x</span>");
}

#[test]
fn html_constructor_elements_open_and_close_in_pairs() {
    let mut tree = Tree::new(ASTElement::new(GroupType::Document));
    let mut header = ASTElement::new(GroupType::Header);
    header.set_arg("2");
    let h = tree.append(0, header);
    let mut text = ASTElement::new(GroupType::Text);
    text.add_text("Title");
    tree.append(h, text);
    let mut list = ASTElement::new(GroupType::List);
    list.set_arg("1");
    tree.append(0, list);
    tree.append(0, ASTElement::new(GroupType::Hr));
    let mut constructor = HTMLConstructor::new(16, true);
    assert_eq!(
        constructor.construct(&tree, 0),
        "<h2>Title</h2><ol type=\"1\"></ol><hr />"
    );

    let mut direct = HTMLConstructor::new(16, true);
    let bold = ASTElement::new(GroupType::Bold);
    direct.start_element(&bold);
    direct.end_element(&bold);
    let empty = Tree::new(ASTElement::new(GroupType::Document));
    assert_eq!(direct.construct(&empty, 0), "<b></b>");
}

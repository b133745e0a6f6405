use ruforo::bbcode2::{Parser, Token};

#[test]
fn add_text_to_img() {
    let mut parser = Parser::new();
    let ast = parser.parse(&[
        Token::Tag("img".to_owned(), None),
        Token::Text("https://zombo.com/images/zombocom.png".to_owned()),
        Token::TagClose("img".to_owned()),
    ]);

    assert_eq!(
        ast.element(ast.child(0, 0)).get_contents(),
        Some(&"https://zombo.com/images/zombocom.png".to_string())
    );
}

#[test]
fn add_text_to_root() {
    let mut parser = Parser::new();
    let ast = parser.parse(&[Token::Text("Foobar".to_owned())]);

    assert_eq!(
        ast.element(ast.child(0, 0)).get_contents(),
        Some(&"Foobar".to_string())
    );
}

#[test]
fn add_bold_to_root() {
    let mut parser = Parser::new();
    let ast = parser.parse(&[
        Token::Tag("b".to_owned(), None),
        Token::Text("Foobar".to_owned()),
        Token::TagClose("b".to_owned()),
    ]);

    assert_eq!(ast.element(0).get_contents(), None);
    assert!(ast.has_children(0));
    let child = ast.child(0, 0);
    assert_eq!(ast.element(child).get_tag_name(), Some(&"b".to_string()));
    assert!(ast.has_children(child));
    let grandchild = ast.child(child, 0);
    assert_eq!(ast.element(grandchild).get_contents(), Some(&"Foobar".to_string()));
}

#[test]
fn add_em_to_bold_and_early_terminate() {
    let mut parser = Parser::new();
    let ast = parser.parse(&[
        Token::Tag("b".to_owned(), None),
        Token::Tag("i".to_owned(), None),
        Token::Text("Foobar".to_owned()),
        Token::TagClose("b".to_owned()),
    ]);

    assert_eq!(ast.element(0).get_contents(), None);
    assert!(parser.is_at_root());
}

#[test]
fn root_linebreak() {
    let mut parser = Parser::new();
    let ast = parser.parse(&[
        Token::Text("a".to_owned()),
        Token::Linebreak,
        Token::Text("b".to_owned()),
    ]);

    assert_eq!(ast.child_count(0), 3);

    assert_eq!(
        ast.element(ast.child(0, 0)).get_contents(),
        Some(&"a".to_owned())
    );

    assert_eq!(ast.element(ast.child(0, 1)).can_have_content(), false);

    assert_eq!(
        ast.element(ast.child(0, 2)).get_contents(),
        Some(&"b".to_owned())
    );
}

#[test]
fn root_wont_close() {
    let mut parser = Parser::new();
    let ast = parser.parse(&[Token::TagClose("quote".to_owned())]);

    assert_eq!(
        ast.element(ast.child(0, 0)).get_contents(),
        Some(&"[/quote]".to_owned())
    );
    assert!(parser.is_at_root());
}

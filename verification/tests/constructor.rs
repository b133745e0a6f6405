use ruforo::bbcode::tree::Tree;
use ruforo::bbcode::{Constructor, Element, Smilies};
use ruforo::bbcode2;
use std::collections::HashMap;

#[test]
fn reusable() {
    let con = Constructor::new();

    // First pass
    let mut ast = Tree::new(Element::new_root());
    ast.append(0, Element::new_from_text("Hello, world!"));

    assert_eq!(ast.child_count(0), 1);
    assert_eq!(con.build(&ast).take(), "Hello, world!");

    // Second pass
    let mut ast = Tree::new(Element::new_root());
    ast.append(0, Element::new_from_text("Foo, bar!"));

    assert_eq!(ast.child_count(0), 1);
    assert_eq!(con.build(&ast).take(), "Foo, bar!");
}

#[test]
fn constructor_smilies() {
    let mut smilies: HashMap<String, String> = HashMap::default();
    smilies.insert(":c".to_string(), "☹️".to_string());
    smilies.insert("cookie".to_string(), "🍪".to_string());
    smilies.insert("ookie".to_string(), "🤢".to_string());

    let con = Constructor {
        smilies: Smilies::new_from_hashmap(&smilies),
    };

    let mut ast = Tree::new(Element::new_root());
    ast.append(0, Element::new_from_text(":c I want a cookie!"));

    let out = con.build(&ast).take();
    assert_eq!(out, "☹️ I want a 🍪!");
}

#[test]
fn constructor_text_in_empty_nest() {
    // Elements keeping slices of the input.
    let con = Constructor::new();
    let mut ast = Tree::new(Element::new_root());
    let mut child = ast.append(0, Element::new_root());
    for _ in 1..10 {
        child = ast.append(child, Element::new_root());
    }
    ast.append(child, Element::new_from_text("Hello, world!"));

    let out = con.build(&ast).take();
    assert_eq!(out, "Hello, world!");

    // Elements owning their text.
    let con = bbcode2::Constructor::new();
    let mut ast = bbcode2::Ast::new(bbcode2::Element::new_root());
    let mut child = ast.append(0, bbcode2::Element::new_root());
    for _ in 1..10 {
        child = ast.append(child, bbcode2::Element::new_root());
    }
    ast.append(child, bbcode2::Element::new_text(&"Hello, world!".to_owned()));

    let out = con.build(&ast);
    assert_eq!(out, "Hello, world!".to_owned());
}

#[test]
fn constructor_text_only() {
    // Elements keeping slices of the input.
    let con = Constructor::new();
    let ast = Tree::new(Element::new_from_text("Hello, world!"));
    let out = con.build(&ast).take();

    assert_eq!(out, "Hello, world!");

    // Elements owning their text.
    let con = bbcode2::Constructor::new();
    let ast = bbcode2::Ast::new(bbcode2::Element::new_text(&"Hello, world!".to_owned()));
    let out = con.build(&ast);

    assert_eq!(out, "Hello, world!".to_owned());
}

use ruforo::bbcode::{SafeHtml, Smilies};

#[test]
fn basic() {
    assert_eq!("", SafeHtml::new().as_ref());
    assert_eq!("", SafeHtml::with_capacity(100).as_ref());
    assert_eq!("<>&\'\"", SafeHtml::from_literal("<>&\'\"").as_ref());
}

#[test]
fn escaped() {
    assert_eq!(
        "&lt;&gt;&amp;&#x27;&quot;",
        SafeHtml::sanitize("<>&\'\"").as_ref()
    );
}

#[test]
fn concatenation() {
    let result = SafeHtml::from_literal("a<bc") + "xy<z" + "_<";
    assert_eq!("a<bcxy<z_<", result.as_ref());

    let user_input = SafeHtml::sanitize("x < y");
    let result = SafeHtml::from_literal("<b>") + &user_input + "</b>";
    assert_eq!("<b>x &lt; y</b>", result.as_ref());

    let mut result = SafeHtml::with_capacity(256);
    result = result + "<b>" + &user_input + "</b>";
    assert_eq!("<b>x &lt; y</b>", result.as_ref());
}

#[test]
fn smilies_replacement() {
    let smilies = Smilies::new_from_tuples(vec![
        (":)".to_owned(), "&#x1F600;".to_owned()),
        (":mad:".to_owned(), "&#x1F620;".to_owned()),
        (":test:".to_owned(), "<test x=\"blah\" />".to_owned()),
    ]);
    assert_eq!(
        "&#x1F620;&#x1F600;",
        SafeHtml::sanitize_and_replace_smilies(":mad::)", &smilies).as_ref()
    );
    assert_eq!(
        "&lt;&amp;my&gt; &#x1F600;&quot;",
        SafeHtml::sanitize_and_replace_smilies("<&my> :)\"", &smilies).as_ref()
    );
    assert_eq!(
        "&lt;<test x=\"blah\" />&gt;",
        SafeHtml::sanitize_and_replace_smilies("<:test:>", &smilies).as_ref()
    );
}

#[test]
fn text_that_looks_like_a_placeholder_stays() {
    let smilies = Smilies::new_from_tuples(vec![(":)".to_owned(), "X".to_owned())]);
    assert_eq!(
        SafeHtml::sanitize_and_replace_smilies("\r0:)", &smilies).as_ref(),
        "\r0X"
    );
    let two = Smilies::new_from_tuples(vec![
        (":)".to_owned(), "A".to_owned()),
        ("1".to_owned(), "B".to_owned()),
    ]);
    assert_eq!(SafeHtml::sanitize_and_replace_smilies(":) 1 <", &two).as_ref(), "A B &lt;");
}

#[test]
fn later_codes_do_not_see_earlier_smilies() {
    let smilies = Smilies::new_from_tuples(vec![
        ("cookie".to_owned(), "C".to_owned()),
        ("ookie".to_owned(), "O".to_owned()),
    ]);
    assert_eq!(SafeHtml::sanitize_and_replace_smilies("a cookie, ookie", &smilies).as_ref(), "a C, O");
}

use ruforo::forum::{new_thread_subtitle, new_thread_title, thread_location, trim};

#[test]
fn title_is_trimmed() {
    assert_eq!(new_thread_title("  Hello world \n"), "Hello world");
    assert_eq!(new_thread_title(" \t "), "");
    assert_eq!(trim("\u{3000}x y\u{a0}"), "x y");
    assert_eq!(trim("plain"), "plain");
}

#[test]
fn subtitle_is_kept_only_when_blank() {
    assert_eq!(new_thread_subtitle(Some("   ")), Some(String::new()));
    assert_eq!(new_thread_subtitle(Some(" sub ")), None);
    assert_eq!(new_thread_subtitle(None), None);
}

#[test]
fn location_of_new_thread() {
    assert_eq!(thread_location(42), "/threads/42/");
    assert_eq!(thread_location(0), "/threads/0/");
    assert_eq!(thread_location(-3), "/threads/-3/");
}

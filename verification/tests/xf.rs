use ruforo::compat::xf::message::{message_history_key, next_message_history, push_message_history};
use ruforo::compat::xf::session::{
    session_cache_key, user_id_from_capture, user_id_from_session, XfAuthor, XfSession,
    XfSessionDatabase,
};
use ruforo::compat::xf::smilie::{smilies_from_rows, Smilie, SmilieRow, SpriteParams};
use ruforo::xf_chat::session::{avatar_uri, user_id_from_session_data};
use std::collections::VecDeque;

#[test]
fn guests_cannot_send() {
    let guest = XfAuthor { id: 0, username: "Guest".to_owned(), avatar_date: 0 };
    let user = XfAuthor { id: 5, username: "Ann".to_owned(), avatar_date: 0 };
    assert!(!guest.can_send_message());
    assert!(user.can_send_message());
}

#[test]
fn author_avatar_uri() {
    let author = XfAuthor { id: 1234, username: "Ann".to_owned(), avatar_date: 1600000000 };
    assert_eq!(
        author.get_avatar_uri("https://forum.example"),
        "https://forum.example/data/avatars/m/1/1234.jpg?1600000000"
    );
    let small = XfAuthor { id: 7, username: "Bo".to_owned(), avatar_date: 0 };
    assert_eq!(small.get_avatar_uri(""), "/data/avatars/m/0/7.jpg?0");
}

#[test]
fn guest_session_and_author() {
    let s = XfSession::default();
    assert_eq!(s.id, 0);
    assert_eq!(s.username, "Guest");
    assert_eq!(s.avatar_date, 0);
    assert!(s.ignored_users.is_empty());
    let row = XfSessionDatabase::default();
    assert_eq!(row.username, "Guest");

    let s = XfSession::from_database(
        XfSessionDatabase { id: 9, username: "Cy".to_owned(), avatar_date: 3 },
        vec![2, 4],
    );
    assert_eq!(s.ignored_users, vec![2, 4]);
    let a = XfAuthor::from(&s);
    assert_eq!(a.id, 9);
    assert_eq!(a.username, "Cy");
    assert_eq!(a.avatar_date, 3);
}

#[test]
fn cache_key() {
    assert_eq!(session_cache_key("abc123"), "xf[session_abc123][1]");
}

#[test]
fn user_id_in_session() {
    let plain = r#"a:2:{s:6:"userId";i:42;s:4:"lang";i:1;}"#;
    assert_eq!(user_id_from_session(plain), Some(42));
    let escaped = r#"a:1:{s:6:\"userId\";i:7;}"#;
    assert_eq!(user_id_from_session(escaped), Some(7));
    assert_eq!(user_id_from_session("a:0:{}"), Some(0));
    let huge = r#"s:6:"userId";i:99999999999;"#;
    assert_eq!(user_id_from_session(huge), None);
    assert_eq!(user_id_from_capture(Some("31")), 31);
    assert_eq!(user_id_from_capture(None), 0);
}

#[test]
fn user_id_in_session_bytes() {
    let data = br#"a:1:{s:6:"userId";i:1500;}"#;
    assert_eq!(user_id_from_session_data(data), Some(1500));
    assert_eq!(user_id_from_session_data(b"\xff\xfe"), Some(0));
}

#[test]
fn chat_avatar_uri() {
    assert_eq!(
        avatar_uri("https://f.example", 1500, 123, Some("png")),
        "https://f.example/data/avatars/m/1/1500.png?123"
    );
    assert_eq!(
        avatar_uri("https://f.example", 1500, 123, Some("")),
        "https://f.example/data/avatars/m/1/1500.jpg?123"
    );
    assert_eq!(avatar_uri("https://f.example", 1500, 123, None), "https://f.example/data/avatars/m/1/1500.jpg?123");
    assert_eq!(avatar_uri("https://f.example", 1500, 0, Some("png")), "");
}

#[test]
fn sprite_params_from_text() {
    let p = SpriteParams::from_fields(Some("32"), Some("16"));
    assert_eq!((p.h, p.w), (32, 16));
    let p = SpriteParams::from_fields(Some("+7"), Some("8"));
    assert_eq!((p.h, p.w), (7, 8));
    let p = SpriteParams::from_fields(Some("x"), Some("16"));
    assert_eq!((p.h, p.w), (0, 0));
    let p = SpriteParams::from_fields(None, Some("16"));
    assert_eq!((p.h, p.w), (0, 0));
}

#[test]
fn smilie_html() {
    let plain = Smilie {
        title: "Smile".to_owned(),
        replace: ":)".to_owned(),
        image_url: "/s.png".to_owned(),
        sprite_params: None,
    };
    assert_eq!(
        plain.to_html(),
        r#"<img src="/s.png" class="smilie" style="" alt=":)" title="Smile   :)" loading="lazy" />"#
    );
    let sprite = Smilie {
        title: "Smile".to_owned(),
        replace: ":)".to_owned(),
        image_url: "/sheet.png".to_owned(),
        sprite_params: Some(SpriteParams { h: 32, w: 16 }),
    };
    assert_eq!(
        sprite.to_html(),
        "<img src=\"data:image/gif;base64,R0lGODlhAQABAIAAAAAAAP///yH5BAEAAAAALAAAAAABAAEAAAIBRAA7\" class=\"smilie\" style=\"width: 16px; height: 32px; background: url(/sheet.png) no-repeat 0 0; background-size: contain;\" alt=\":)\" title=\"Smile   :)\" loading=\"lazy\" />"
    );
}

#[test]
fn smilies_from_definitions() {
    let rows = vec![
        SmilieRow {
            title: "Smile".to_owned(),
            smilie_text: " :) :-)\n".to_owned(),
            image_url: "/smile.png".to_owned(),
            sprite_mode: 0,
            sprite_h: None,
            sprite_w: None,
        },
        SmilieRow {
            title: "Wink".to_owned(),
            smilie_text: ";)".to_owned(),
            image_url: "/sheet.png".to_owned(),
            sprite_mode: 1,
            sprite_h: Some("18".to_owned()),
            sprite_w: Some("20".to_owned()),
        },
        SmilieRow {
            title: "Empty".to_owned(),
            smilie_text: "  ".to_owned(),
            image_url: "/e.png".to_owned(),
            sprite_mode: 0,
            sprite_h: None,
            sprite_w: None,
        },
    ];
    let smilies = smilies_from_rows(&rows);
    let replaced: Vec<&str> = smilies.iter().map(|s| s.replace.as_str()).collect();
    assert_eq!(replaced, vec![":)", ":-)", ";)"]);
    assert_eq!(smilies[1].title, "Smile");
    assert!(smilies[0].sprite_params.is_none());
    let sp = smilies[2].sprite_params.unwrap();
    assert_eq!((sp.h, sp.w), (18, 20));
    assert_eq!(smilies[2].image_url, "/sheet.png");
}

#[test]
fn history_key() {
    assert_eq!(message_history_key(5), "xf[hb.chat.room5.messages][1]");
}

#[test]
fn history_keeps_the_newest_twenty() {
    let mut short: VecDeque<u32> = VecDeque::from(vec![1, 2]);
    push_message_history(&mut short, 3);
    assert_eq!(short, VecDeque::from(vec![1, 2, 3]));
    let mut full: VecDeque<u32> = (1..=20).collect();
    push_message_history(&mut full, 21);
    assert_eq!(full, (2..=21).collect::<VecDeque<u32>>());
}

#[test]
fn history_bytes() {
    assert_eq!(next_message_history(None, 7), b"a:1:{i:0;i:7;}".to_vec());
    assert_eq!(
        next_message_history(Some(b"a:2:{i:0;i:3;i:1;i:4;}"), 5),
        b"a:3:{i:0;i:3;i:1;i:4;i:2;i:5;}".to_vec()
    );
    assert_eq!(next_message_history(Some(b"not php"), 9), b"a:1:{i:0;i:9;}".to_vec());
    let twenty: Vec<u8> = {
        let mut s = String::from("a:20:{");
        for k in 0..20 {
            s.push_str(&format!("i:{};i:{};", k, 100 + k));
        }
        s.push('}');
        s.into_bytes()
    };
    let mut expected = String::from("a:20:{");
    for k in 0..20 {
        expected.push_str(&format!("i:{};i:{};", k, if k < 19 { 101 + k } else { 500 }));
    }
    expected.push('}');
    assert_eq!(next_message_history(Some(&twenty), 500), expected.into_bytes());
}

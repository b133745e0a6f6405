//! XenForo sessions: who a request belongs to, read from the session that
//! XenForo keeps in PHP-serialized form.
use vstd::prelude::*;
use crate::text::{decimal, parse_unsigned, parse_unsigned_exec, push_decimal, push_str};

verus! {

/// The author of a chat message.
#[derive(Clone, Debug)]
pub struct XfAuthor {
    pub id: u32,
    pub username: String,
    pub avatar_date: u32,
}

/// The user a request belongs to; id 0 is a guest.
#[derive(Clone, Debug)]
pub struct XfSession {
    pub id: u32,
    pub username: String,
    pub avatar_date: u32,
    pub ignored_users: Vec<u32>,
}

/// The row of a user as the database gives it.
#[derive(Clone, Debug)]
pub struct XfSessionDatabase {
    pub id: u32,
    pub username: String,
    pub avatar_date: u32,
}

impl Default for XfSession {
    /// The guest session.
    fn default() -> (s: Self)
        ensures
            s.id == 0,
            s.username@ == "Guest"@,
            s.avatar_date == 0,
            s.ignored_users@ == Seq::<u32>::empty(),
    {
        XfSession { id: 0, username: "Guest".to_owned(), avatar_date: 0, ignored_users: Vec::new() }
    }
}

impl Default for XfSessionDatabase {
    /// The row of the guest.
    fn default() -> (s: Self)
        ensures
            s.id == 0,
            s.username@ == "Guest"@,
            s.avatar_date == 0,
    {
        XfSessionDatabase { id: 0, username: "Guest".to_owned(), avatar_date: 0 }
    }
}

impl<'a> From<&'a XfSession> for XfAuthor {
    fn from(session: &'a XfSession) -> (r: Self) {
        XfAuthor { id: session.id, username: session.username.clone(), avatar_date: session.avatar_date }
    }
}

impl<'a> vstd::std_specs::convert::FromSpecImpl<&'a XfSession> for XfAuthor {
    open spec fn obeys_from_spec() -> bool {
        true
    }

    open spec fn from_spec(session: &'a XfSession) -> Self {
        XfAuthor { id: session.id, username: session.username, avatar_date: session.avatar_date }
    }
}

/// The path of a user's medium avatar under the forum's public URL.
pub open spec fn avatar_path(public_url: Seq<char>, id: u32) -> Seq<char> {
    public_url + "/data/avatars/m/"@ + decimal((id / 1000) as nat) + "/"@ + decimal(id as nat)
}

impl XfAuthor {
    /// Guests may not send messages.
    pub fn can_send_message(&self) -> (b: bool)
        ensures
            b == (self.id > 0),
    {
        self.id > 0
    }

    /// The URL of the author's avatar under the forum's public URL
    /// `public_url`: the JPEG of its medium size, with the avatar's date as query.
    pub fn get_avatar_uri(&self, public_url: &str) -> (r: String)
        ensures
            r@ == avatar_path(public_url@, self.id) + ".jpg?"@ + decimal(self.avatar_date as nat),
    {
        let mut r = String::new();
        push_str(&mut r, public_url);
        push_str(&mut r, "/data/avatars/m/");
        push_decimal(&mut r, (self.id / 1000) as u128);
        push_str(&mut r, "/");
        push_decimal(&mut r, self.id as u128);
        push_str(&mut r, ".jpg?");
        push_decimal(&mut r, self.avatar_date as u128);
        r
    }
}

impl XfSession {
    /// The session of a user from the user's row and the users they ignore.
    pub fn from_database(row: XfSessionDatabase, ignored_users: Vec<u32>) -> (s: XfSession)
        ensures
            s.id == row.id,
            s.username == row.username,
            s.avatar_date == row.avatar_date,
            s.ignored_users == ignored_users,
    {
        XfSession { id: row.id, username: row.username, avatar_date: row.avatar_date, ignored_users }
    }
}

/// The key under which the session of the cookie `cookie` is cached.
pub fn session_cache_key(cookie: &str) -> (r: String)
    ensures
        r@ == "xf[session_"@ + cookie@ + "][1]"@,
{
    let mut r = String::new();
    push_str(&mut r, "xf[session_");
    push_str(&mut r, cookie);
    push_str(&mut r, "][1]");
    r
}

/// The pattern that finds the user id in a serialized session, with or without
/// escaped quotes.
pub const XF_SESSION_PATTERN: &'static str = r#"s:6:\\?"?userId\\?"?;i:(?P<user_id>\d+);"#;

/// The text of the group named `group` in the first match of the regular
/// expression `pattern` in `text`; `None` where the pattern does not compile,
/// does not match, or the group takes no part in the match.
pub uninterp spec fn regex_group_match(pattern: Seq<char>, text: Seq<char>, group: Seq<char>) -> Option<Seq<char>>;

/// Runs the `regex` crate: `Regex::new(pattern)`, `Regex::captures(text)`, and
/// the text of the named group of the first match (`Captures::name`). What the
/// match is, is left to the name `regex_group_match`, as a function of the
/// pattern, the text and the group's name alone.
#[verifier::external_body]
fn regex_capture(pattern: &str, text: &str, group: &str) -> (r: Option<String>)
    ensures
        match regex_group_match(pattern@, text@, group@) {
            Some(c) => r matches Some(s) && s@ == c,
            None => r is None,
        },
{
    match regex::Regex::new(pattern) {
        Ok(ex) => match ex.captures(text) {
            Some(captures) => match captures.name(group) {
                Some(m) => Some(m.as_str().to_owned()),
                None => None,
            },
            None => None,
        },
        Err(_) => None,
    }
}

/// The text of the `user_id` group of the first match of `XF_SESSION_PATTERN`
/// in `text`; `None` where the pattern does not match.
pub open spec fn session_user_id_match(text: Seq<char>) -> Option<Seq<char>> {
    regex_group_match(XF_SESSION_PATTERN@, text, "user_id"@)
}

/// The user id that a serialized session names: 0 where it names none, and
/// `None` where the digits found do not make a `u32`.
pub open spec fn session_user_id(text: Seq<char>) -> Option<u32> {
    match session_user_id_match(text) {
        None => Some(0),
        Some(c) => match parse_unsigned(c, u32::MAX as nat) {
            Some(v) => Some(v as u32),
            None => None,
        },
    }
}

/// The user id that the digits of a session's `user_id` group make, or 0 where
/// the session has none.
pub fn user_id_from_capture(capture: Option<&str>) -> (id: u32)
    requires
        capture matches Some(c) ==> parse_unsigned(c@, u32::MAX as nat) is Some,
    ensures
        id == match capture {
            Some(c) => parse_unsigned(c@, u32::MAX as nat).unwrap() as u32,
            None => 0,
        },
{
    match capture {
        Some(c) => {
            let v = parse_unsigned_exec(c, 0xFFFF_FFFF);
            v.unwrap() as u32
        },
        None => 0,
    }
}

/// The user id that a serialized session names (`session_user_id`).
pub fn user_id_from_session(text: &str) -> (r: Option<u32>)
    ensures
        r == session_user_id(text@),
{
    let capture = regex_capture(XF_SESSION_PATTERN, text, "user_id");
    match capture {
        Some(c) => {
            if parse_unsigned_exec(c.as_str(), 0xFFFF_FFFF).is_some() {
                Some(user_id_from_capture(Some(c.as_str())))
            } else {
                None
            }
        },
        None => Some(user_id_from_capture(None)),
    }
}

} // verus!

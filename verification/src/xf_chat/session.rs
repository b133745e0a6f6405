//! Chat users as XenForo knows them: their avatars and the user id of a
//! stored session.
use vstd::prelude::*;
use crate::compat::xf::session::{avatar_path, session_user_id, user_id_from_session};
use crate::text::{decimal, push_decimal, push_str};

verus! {

/// The extension of an avatar: its format where it has a non-empty one, else
/// `jpg`.
pub open spec fn avatar_extension(format: Option<Seq<char>>) -> Seq<char> {
    match format {
        Some(f) => if f.len() > 0 { f } else { "jpg"@ },
        None => "jpg"@,
    }
}

/// The URL of a user's avatar under the forum's public URL `public_url`; empty
/// for a user without an avatar (date 0).
pub fn avatar_uri(public_url: &str, id: u32, date: u32, format: Option<&str>) -> (r: String)
    ensures
        r@ == if date > 0 {
            avatar_path(public_url@, id) + "."@ + avatar_extension(
                match format { Some(f) => Some(f@), None => None },
            ) + "?"@ + decimal(date as nat)
        } else {
            Seq::<char>::empty()
        },
{
    let mut r = String::new();
    if date > 0 {
        push_str(&mut r, public_url);
        push_str(&mut r, "/data/avatars/m/");
        push_decimal(&mut r, (id / 1000) as u128);
        push_str(&mut r, "/");
        push_decimal(&mut r, id as u128);
        push_str(&mut r, ".");
        match format {
            Some(f) => {
                if !f.is_empty() {
                    push_str(&mut r, f);
                } else {
                    push_str(&mut r, "jpg");
                }
            },
            None => push_str(&mut r, "jpg"),
        }
        push_str(&mut r, "?");
        push_decimal(&mut r, date as u128);
    }
    r
}

/// The text of stored session data, invalid UTF-8 replaced
/// (`String::from_utf8_lossy`).
pub uninterp spec fn lossy_text(bytes: Seq<u8>) -> Seq<char>;

/// Calls `String::from_utf8_lossy`. Its documentation says that valid UTF-8 is
/// decoded as it stands and that invalid sequences become U+FFFD; which bytes
/// make one such sequence it leaves unsaid, so only the valid case is stated.
#[verifier::external_body]
fn utf8_lossy(bytes: &[u8]) -> (r: String)
    ensures
        r@ == lossy_text(bytes@),
        vstd::utf8::valid_utf8(bytes@) ==> r@ == vstd::utf8::decode_utf8(bytes@),
{
    String::from_utf8_lossy(bytes).into_owned()
}

/// The user id that stored session data names: 0 where it names none, `None`
/// where the digits found do not make a `u32`.
pub fn user_id_from_session_data(data: &[u8]) -> (r: Option<u32>)
    ensures
        r == session_user_id(lossy_text(data@)),
        vstd::utf8::valid_utf8(data@) ==> r == session_user_id(vstd::utf8::decode_utf8(data@)),
{
    let text = utf8_lossy(data);
    user_id_from_session(text.as_str())
}

} // verus!

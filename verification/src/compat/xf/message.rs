//! The history of chat messages that XenForo caches for each room: the ids of
//! its newest messages, as a PHP-serialized array.
use vstd::prelude::*;
use std::collections::VecDeque;
use crate::text::{decimal, push_decimal, push_str};

verus! {

/// The most message ids a room's history keeps.
pub const HISTORY_LEN: usize = 20;

/// The cache key of the message history of room `room_id`.
pub fn message_history_key(room_id: u32) -> (r: String)
    ensures
        r@ == "xf[hb.chat.room"@ + decimal(room_id as nat) + ".messages][1]"@,
{
    let mut r = String::new();
    push_str(&mut r, "xf[hb.chat.room");
    push_decimal(&mut r, room_id as u128);
    push_str(&mut r, ".messages][1]");
    r
}

/// A history with `message_id` appended, the oldest ids dropped beyond
/// `HISTORY_LEN`.
pub open spec fn kept_history(history: Seq<u32>, message_id: u32) -> Seq<u32> {
    let all = history.push(message_id);
    if all.len() > HISTORY_LEN {
        all.skip(all.len() - HISTORY_LEN)
    } else {
        all
    }
}

/// A kept history holds at most `HISTORY_LEN` ids, ends with the new one, and
/// is what the old history followed by the new id ends with.
pub proof fn lemma_kept_history(history: Seq<u32>, message_id: u32)
    ensures
        kept_history(history, message_id).len() <= HISTORY_LEN,
        kept_history(history, message_id).last() == message_id,
        history.push(message_id).skip(
            history.len() + 1 - kept_history(history, message_id).len(),
        ) == kept_history(history, message_id),
{
    let all = history.push(message_id);
    if all.len() <= HISTORY_LEN {
        assert(all.skip(0) =~= all);
    }
}

/// Appends `message_id` to a history and drops the oldest ids beyond
/// `HISTORY_LEN` (`kept_history`).
pub fn push_message_history(history: &mut VecDeque<u32>, message_id: u32)
    ensures
        final(history)@ == kept_history(old(history)@, message_id),
{
    history.push_back(message_id);
    let ghost all = old(history)@.push(message_id);
    let total = history.len();
    let mut dropped: usize = 0;
    while history.len() > HISTORY_LEN
        invariant
            total == all.len(),
            history@ == all.skip(dropped as int),
            dropped <= all.len(),
            dropped > 0 ==> history@.len() >= HISTORY_LEN,
        decreases history@.len(),
    {
        let _ = history.pop_front();
        dropped = dropped + 1;
        assert(history@ =~= all.skip(dropped as int));
    }
    proof {
        if dropped == 0 {
            assert(all.skip(0) =~= all);
        }
    }
}

/// A PHP-serialized integer.
pub open spec fn php_int(v: nat) -> Seq<char> {
    "i:"@ + decimal(v) + ";"@
}

/// The entries of a PHP-serialized list: each index followed by its value.
pub open spec fn php_entries(s: Seq<u32>) -> Seq<char>
    decreases s.len(),
{
    if s.len() == 0 {
        Seq::empty()
    } else {
        php_entries(s.drop_last()) + php_int((s.len() - 1) as nat) + php_int(s.last() as nat)
    }
}

/// A list of integers, PHP-serialized: `a:`, the length, `:{`, the entries and `}`.
pub open spec fn php_int_array(s: Seq<u32>) -> Seq<char> {
    "a:"@ + decimal(s.len()) + ":{"@ + php_entries(s) + "}"@
}

/// The bytes of ASCII text.
pub open spec fn ascii_bytes(s: Seq<char>) -> Seq<u8> {
    s.map_values(|c: char| c as u8)
}

/// The ids that a PHP-serialized list in `bytes` holds, as `serde_php` reads
/// it; `None` where it reads none.
pub uninterp spec fn php_id_list(bytes: Seq<u8>) -> Option<Seq<u32>>;

/// Reads a PHP-serialized list of ids with `serde_php::from_bytes`. What it
/// accepts is left to the name `php_id_list`, a function of the bytes alone.
#[verifier::external_body]
fn read_php_ids(bytes: &[u8]) -> (r: Option<VecDeque<u32>>)
    ensures
        match php_id_list(bytes@) {
            Some(ids) => r matches Some(d) && d@ == ids,
            None => r is None,
        },
{
    serde_php::from_bytes::<VecDeque<u32>>(bytes).ok()
}

/// Writes a list of ids with `serde_php::to_vec`. Its serializer writes a
/// sequence of known length as `a:N:{`, each element's index and value as
/// `i:..;`, and `}`, into a byte vector, which takes every write; so the call
/// succeeds and gives those bytes.
#[verifier::external_body]
fn write_php_ids(ids: &VecDeque<u32>) -> (r: Vec<u8>)
    ensures
        r@ == ascii_bytes(php_int_array(ids@)),
{
    serde_php::to_vec(ids).unwrap_or_default()
}

/// The history that the cache gave: the list it holds where it reads as one,
/// else an empty one.
pub open spec fn stored_history(stored: Option<Seq<u8>>) -> Seq<u32> {
    match stored {
        Some(b) => match php_id_list(b) {
            Some(h) => h,
            None => Seq::empty(),
        },
        None => Seq::empty(),
    }
}

/// The serialized history to cache after message `message_id` was posted,
/// from what the cache gave (`None` where it gave nothing): the stored history
/// with the message appended (`kept_history`).
pub fn next_message_history(stored: Option<&[u8]>, message_id: u32) -> (r: Vec<u8>)
    ensures
        r@ == ascii_bytes(php_int_array(kept_history(
            stored_history(match stored { Some(b) => Some(b@), None => None }),
            message_id,
        ))),
{
    let mut history = match stored {
        Some(bytes) => match read_php_ids(bytes) {
            Some(h) => h,
            None => VecDeque::new(),
        },
        None => VecDeque::new(),
    };
    push_message_history(&mut history, message_id);
    write_php_ids(&history)
}

} // verus!

//! Forum text processing: BBCode tokenizing, parsing and HTML construction,
//! HTML sanitation and smilie replacement.
pub mod bbcode;
pub mod bbcode2;
pub mod compat;
pub mod ffmpeg;
pub mod filesystem;
pub mod forum;
pub mod frontend;
pub mod text;
pub mod weburl;
pub mod xf_chat;

//! XenForo sessions, authors and smilies.
pub mod message;
pub mod session;
pub mod smilie;

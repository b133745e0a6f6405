//! The XenForo side of the chat service.
pub mod session;

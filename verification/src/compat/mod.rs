//! Interoperation with a XenForo installation.
pub mod xf;

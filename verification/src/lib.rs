//! Request-edge helpers for a network service: trusted-proxy aware client
//! address resolution, decode-only inspection of bearer-token claims, and the
//! small text and codec helpers these build on.

pub mod addr;
pub mod codec;
pub mod error;
pub mod ident;
pub mod json;
pub mod proxy;
pub mod range;
pub mod text;
pub mod token;

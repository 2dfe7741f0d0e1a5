//! Verified core of an XDCC client: decoding a bot's `DCC SEND` offer and the
//! decisions of one pack request.
pub mod engine;
pub mod request;
pub mod response;
pub mod text;

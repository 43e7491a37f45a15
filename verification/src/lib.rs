//! Routing table and handlers of a small HTTP greeting service.
//!
//! The service answers six routes. This crate holds everything that decides
//! what a request gets back: which handler a method and a path select, how
//! path parameters are decoded and typed, and what each handler replies.
//! Listening on a socket and writing the reply is left to the embedding
//! server, which hands over plain bytes and takes plain values back.
//!
//! `dispatch::dispatch` is the whole service as one function; `laws` states
//! what holds of it for every request.

pub mod ascii;
pub mod boolean;
pub mod decimal;
pub mod dispatch;
pub mod handlers;
pub mod json;
pub mod laws;
pub mod path;
pub mod percent;
pub mod response;
pub mod route;
pub mod text;

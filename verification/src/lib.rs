//! A blogging engine's core: threaded comment trees, a capability-based
//! permission model, per-entity visibility gates, and the soft-delete /
//! purge lifecycle of comments, all verified against an in-memory store.

pub mod article;
pub mod comment;
pub mod config;
pub mod crypto;
pub mod document;
pub mod error;
pub mod handler;
pub mod laws;
pub mod markdown;
pub mod routes;
pub mod seq_util;
pub mod store;
pub mod text;
pub mod user;

use vstd::prelude::*;

verus! {

} // verus!

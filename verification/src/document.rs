//! The decision halves of the page handlers: what each page shows, as plain
//! values; rendering them is the unverified outer layer's concern.

pub mod article;
pub mod index;
pub mod user;

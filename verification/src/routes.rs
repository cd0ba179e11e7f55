//! The request parameters the routes extract, as plain values.

use vstd::prelude::*;

use crate::error::Error;
use crate::store::{find_article, find_article_by_url, Store};
use crate::text::{parse_i32, spec_parse_i32};

verus! {

/// Page number in a paginated document.
#[derive(Debug)]
pub struct Page {
    pub page: i64,
}

/// An article id or url.
#[derive(Debug)]
pub struct ArticlePath {
    pub id: String,
}

impl ArticlePath {
    /// Resolve the path to an article id: a numeric path is the id itself,
    /// any other is looked up as a pretty url.
    pub fn find_id(&self, store: &Store) -> (r: Result<i64, Error>)
        ensures
            match spec_parse_i32(self.id@) {
                Some(v) => r == Ok::<i64, Error>(v as i64),
                None => match find_article_by_url(store.articles@, self.id@) {
                    Some(a) => r == Ok::<i64, Error>(a.id),
                    None => r == Err::<i64, Error>(Error::NotFound),
                },
            },
    {
        match parse_i32(self.id.as_str()) {
            Some(id) => Ok(id as i64),
            None => crate::article::id_from_url(store, self.id.as_str()),
        }
    }
}

/// A numeric article id in the path.
#[derive(Debug)]
pub struct ArticleIdPath {
    pub id: i64,
}

/// A numeric comment id in the path.
#[derive(Debug)]
pub struct CommentPath {
    pub id: i64,
}

/// How many parent levels a comment view climbs before expanding.
#[derive(Debug)]
pub struct Context {
    pub context: Option<u32>,
}

/// A username in the path.
#[derive(Debug)]
pub struct UserPath {
    pub user: String,
}

/// Marker for the not-found response the outer layer renders.
#[derive(Debug)]
pub struct NotFound;

} // verus!

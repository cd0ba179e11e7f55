//! The article page: the article itself, its author's display name and its
//! comment forest, gated by viewability.

use vstd::prelude::*;

use crate::article::{spec_article_viewable, Article};
use crate::comment;
use crate::comment::{article_comments, forest_matches, Node};
use crate::error::Error;
use crate::routes::ArticlePath;
use crate::store::{find_article, find_article_by_url, find_user, Store};
use crate::text::spec_parse_i32;
use crate::user::Session;

verus! {

/// Everything the article page shows.
#[derive(Debug)]
pub struct ArticlePage {
    pub article: Article,
    pub author_name: String,
    pub comments: Vec<Node>,
}

/// The article the path names, if the actor may see it: a hidden article
/// answers as if it did not exist. The page carries the author's display
/// name and the full comment forest; visibility of single comments is the
/// renderer's concern, judged node by node.
pub fn view(store: &Store, session: Option<&Session>, path: &ArticlePath) -> (r: Result<
    Option<ArticlePage>,
    Error,
>)
    ensures
        ({
            let found = match spec_parse_i32(path.id@) {
                Some(v) => find_article(store.articles@, v as i64),
                None => find_article_by_url(store.articles@, path.id@),
            };
            match found {
                None => r == Err::<Option<ArticlePage>, Error>(Error::NotFound),
                Some(a) => match spec_article_viewable(
                    store.users@,
                    store.groups@,
                    a,
                    match session {
                        Some(s) => Some(*s),
                        None => None,
                    },
                ) {
                    Err(e) => r == Err::<Option<ArticlePage>, Error>(e),
                    Ok(false) => r == Ok::<Option<ArticlePage>, Error>(None),
                    Ok(true) => match find_user(store.users@, a.author@) {
                        None => r == Err::<Option<ArticlePage>, Error>(Error::NotFound),
                        Some(u) => match r {
                            Ok(Some(page)) => {
                                &&& page.article == a
                                &&& page.author_name == u.name
                                &&& forest_matches(
                                    article_comments(store.comments@, a.id),
                                    page.comments@,
                                )
                            },
                            _ => false,
                        },
                    },
                },
            }
        }),
{
    let article = match crate::article::view(store, path.id.as_str()) {
        Ok(a) => a,
        Err(e) => {
            return Err(e);
        },
    };
    // Answer as for a missing article if the actor isn't allowed to view it
    match article.viewable(session, store) {
        Err(e) => {
            return Err(e);
        },
        Ok(false) => {
            return Ok(None);
        },
        Ok(true) => {},
    }
    let author = match article.user(store) {
        Ok(u) => u,
        Err(e) => {
            return Err(e);
        },
    };
    let comments = comment::list(store, article.id);
    Ok(Some(ArticlePage { article, author_name: author.name, comments }))
}

} // verus!

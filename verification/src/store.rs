//! The data store, modelled as an in-memory repository.
//!
//! The engine treats its store as a simple synchronous repository of rows;
//! this module gives that repository exact semantics. The unverified outer
//! layer owns one `Store` behind its own lock and hands it to the library
//! call by call.

use vstd::prelude::*;

use crate::article::Article;
use crate::comment::Comment;
use crate::seq_util::find_first;
use crate::user::{Group, Session, User};

verus! {

/// All tables of the engine.
#[derive(Debug)]
pub struct Store {
    pub articles: Vec<Article>,
    pub comments: Vec<Comment>,
    pub users: Vec<User>,
    pub groups: Vec<Group>,
    pub sessions: Vec<Session>,
}

/// The first comment row carrying `id`, if any.
pub open spec fn find_comment(s: Seq<Comment>, id: i64) -> Option<Comment> {
    find_first(s, |c: Comment| c.id == id)
}

/// The first article row carrying `id`, if any.
pub open spec fn find_article(s: Seq<Article>, id: i64) -> Option<Article> {
    find_first(s, |a: Article| a.id == id)
}

/// The first article row carrying `url`, if any.
pub open spec fn find_article_by_url(s: Seq<Article>, url: Seq<char>) -> Option<Article> {
    find_first(s, |a: Article| a.url@ == url)
}

/// The first user row carrying `id`, if any.
pub open spec fn find_user(s: Seq<User>, id: Seq<char>) -> Option<User> {
    find_first(s, |u: User| u.id@ == id)
}

/// The first group row carrying `id`, if any.
pub open spec fn find_group(s: Seq<Group>, id: Seq<char>) -> Option<Group> {
    find_first(s, |g: Group| g.id@ == id)
}

/// The first session row carrying `id`, if any.
pub open spec fn find_session(s: Seq<Session>, id: Seq<char>) -> Option<Session> {
    find_first(s, |x: Session| x.id@ == id)
}

/// Comment ids are unique across the table.
pub open spec fn unique_comment_ids(s: Seq<Comment>) -> bool {
    forall|i: int, j: int| 0 <= i < j < s.len() ==> s[i].id != s[j].id
}

/// Article ids are unique across the table.
pub open spec fn unique_article_ids(s: Seq<Article>) -> bool {
    forall|i: int, j: int| 0 <= i < j < s.len() ==> s[i].id != s[j].id
}

/// User names are unique across the table.
pub open spec fn unique_user_ids(s: Seq<User>) -> bool {
    forall|i: int, j: int| 0 <= i < j < s.len() ==> s[i].id@ != s[j].id@
}

/// Group names are unique across the table.
pub open spec fn unique_group_ids(s: Seq<Group>) -> bool {
    forall|i: int, j: int| 0 <= i < j < s.len() ==> s[i].id@ != s[j].id@
}

impl Store {
    /// Every table keys its rows uniquely, as the schema's primary keys do.
    pub open spec fn wf(self) -> bool {
        &&& unique_comment_ids(self.comments@)
        &&& unique_article_ids(self.articles@)
        &&& unique_user_ids(self.users@)
        &&& unique_group_ids(self.groups@)
    }

    /// An empty store.
    pub fn new() -> (s: Store)
        ensures
            s.wf(),
            s.articles@.len() == 0,
            s.comments@.len() == 0,
            s.users@.len() == 0,
            s.groups@.len() == 0,
            s.sessions@.len() == 0,
    {
        Store {
            articles: Vec::new(),
            comments: Vec::new(),
            users: Vec::new(),
            groups: Vec::new(),
            sessions: Vec::new(),
        }
    }
}

} // verus!

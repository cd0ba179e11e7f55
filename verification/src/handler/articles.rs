//! Gated article operations.

use vstd::prelude::*;

use crate::article;
use crate::article::{count_articles_with_id, max_article_id, valid_url, Article, ArticleChanges,
    NewArticle};
use crate::error::Error;
use crate::store::{find_article, Store};
use crate::user::{spec_session_allowed, Group, Permission, Session, User};

verus! {

/// The own-or-foreign moderation rule over one article: the blanket
/// permission wins outright; the narrower permission needs the article to
/// exist and be the actor's own. A missing article surfaces only on the
/// narrow path, where the row had to be read.
pub open spec fn article_gate(
    users: Seq<User>,
    groups: Seq<Group>,
    articles: Seq<Article>,
    s: Session,
    id: i64,
    foreign: Permission,
    own: Permission,
) -> Result<bool, Error> {
    match spec_session_allowed(users, groups, s, foreign) {
        Err(e) => Err(e),
        Ok(true) => Ok(true),
        Ok(false) => match spec_session_allowed(users, groups, s, own) {
            Err(e) => Err(e),
            Ok(false) => Ok(false),
            Ok(true) => match find_article(articles, id) {
                None => Err(Error::NotFound),
                Some(a) => Ok(a.author@ == s.user@),
            },
        },
    }
}

/// Evaluate the own-or-foreign rule for one actor and article.
fn check_article(store: &Store, s: &Session, id: i64, foreign: Permission, own: Permission) -> (r:
    Result<bool, Error>)
    ensures
        r == article_gate(store.users@, store.groups@, store.articles@, *s, id, foreign, own),
{
    match s.allowed(foreign, store) {
        Err(e) => Err(e),
        Ok(true) => Ok(true),
        Ok(false) => match s.allowed(own, store) {
            Err(e) => Err(e),
            Ok(false) => Ok(false),
            Ok(true) => match article::author(store, id) {
                Err(e) => Err(e),
                Ok(author) => Ok(author.as_str().eq(s.user.as_str())),
            },
        },
    }
}

/// Submit an article; the actor needs the creation permission.
pub fn submit(store: &mut Store, session: Option<&Session>, new: &NewArticle, now: i64) -> (r:
    Result<usize, Error>)
    requires
        max_article_id(old(store).articles@) < i64::MAX,
    ensures
        match session {
            None => r == Err::<usize, Error>(Error::PermissionDenied) && *final(store) == *old(
                store,
            ),
            Some(s) => match spec_session_allowed(
                old(store).users@,
                old(store).groups@,
                *s,
                Permission::CreateArticle,
            ) {
                Err(e) => r == Err::<usize, Error>(e) && *final(store) == *old(store),
                Ok(false) => r == Err::<usize, Error>(Error::PermissionDenied) && *final(store)
                    == *old(store),
                Ok(true) => match r {
                    Err(e) => e == Error::UrlInvalid && !valid_url(new.url@) && *final(store)
                        == *old(store),
                    Ok(n) => {
                        let na = final(store).articles@.last();
                        &&& valid_url(new.url@)
                        &&& n == 1
                        &&& final(store).articles@ == old(store).articles@.push(na)
                        &&& na.id == max_article_id(old(store).articles@) + 1
                        &&& na.title == new.title
                        &&& na.author == new.author
                        &&& na.url == new.url
                        &&& na.content == new.content
                        &&& na.date == now
                        &&& na.visible == new.visible
                        &&& final(store).comments == old(store).comments
                        &&& final(store).users == old(store).users
                        &&& final(store).groups == old(store).groups
                        &&& final(store).sessions == old(store).sessions
                    },
                },
            },
        },
        old(store).wf() ==> final(store).wf(),
{
    let s = match session {
        None => {
            return Err(Error::PermissionDenied);
        },
        Some(s) => s,
    };
    match s.allowed(Permission::CreateArticle, store) {
        Err(e) => Err(e),
        Ok(false) => Err(Error::PermissionDenied),
        Ok(true) => article::submit(store, new, now),
    }
}

/// Edit an article, for its author or an editor with the blanket
/// permission.
pub fn edit(
    store: &mut Store,
    session: Option<&Session>,
    id: i64,
    changes: &ArticleChanges,
) -> (r: Result<usize, Error>)
    ensures
        match session {
            None => r == Err::<usize, Error>(Error::PermissionDenied) && *final(store) == *old(
                store,
            ),
            Some(s) => match article_gate(
                old(store).users@,
                old(store).groups@,
                old(store).articles@,
                *s,
                id,
                Permission::EditForeignArticle,
                Permission::EditArticle,
            ) {
                Err(e) => r == Err::<usize, Error>(e) && *final(store) == *old(store),
                Ok(false) => r == Err::<usize, Error>(Error::PermissionDenied) && *final(store)
                    == *old(store),
                Ok(true) => {
                    &&& r matches Ok(n) && n as int == count_articles_with_id(
                        old(store).articles@,
                        id,
                    )
                    &&& final(store).articles@.len() == old(store).articles@.len()
                    &&& forall|j: int|
                        0 <= j < old(store).articles@.len() ==> final(store).articles@[j] == (
                        if old(store).articles@[j].id == id {
                            Article {
                                title: changes.title,
                                url: changes.url,
                                content: changes.content,
                                visible: changes.visible,
                                ..old(store).articles@[j]
                            }
                        } else {
                            old(store).articles@[j]
                        })
                    &&& final(store).comments == old(store).comments
                    &&& final(store).users == old(store).users
                    &&& final(store).groups == old(store).groups
                    &&& final(store).sessions == old(store).sessions
                },
            },
        },
        old(store).wf() ==> final(store).wf(),
{
    let s = match session {
        None => {
            return Err(Error::PermissionDenied);
        },
        Some(s) => s,
    };
    match check_article(store, s, id, Permission::EditForeignArticle, Permission::EditArticle) {
        Err(e) => Err(e),
        Ok(false) => Err(Error::PermissionDenied),
        Ok(true) => Ok(article::edit(store, id, changes)),
    }
}

/// Remove an article, for its author or an editor with the blanket
/// permission.
pub fn delete(store: &mut Store, session: Option<&Session>, id: i64) -> (r: Result<usize, Error>)
    ensures
        match session {
            None => r == Err::<usize, Error>(Error::PermissionDenied) && *final(store) == *old(
                store,
            ),
            Some(s) => match article_gate(
                old(store).users@,
                old(store).groups@,
                old(store).articles@,
                *s,
                id,
                Permission::DeleteForeignArticle,
                Permission::DeleteArticle,
            ) {
                Err(e) => r == Err::<usize, Error>(e) && *final(store) == *old(store),
                Ok(false) => r == Err::<usize, Error>(Error::PermissionDenied) && *final(store)
                    == *old(store),
                Ok(true) => {
                    &&& r matches Ok(n) && n as int == count_articles_with_id(
                        old(store).articles@,
                        id,
                    )
                    &&& final(store).articles@ == old(store).articles@.filter(
                        |a: Article| a.id != id,
                    )
                    &&& final(store).comments == old(store).comments
                    &&& final(store).users == old(store).users
                    &&& final(store).groups == old(store).groups
                    &&& final(store).sessions == old(store).sessions
                },
            },
        },
        old(store).wf() ==> final(store).wf(),
{
    let s = match session {
        None => {
            return Err(Error::PermissionDenied);
        },
        Some(s) => s,
    };
    match check_article(store, s, id, Permission::DeleteForeignArticle, Permission::DeleteArticle) {
        Err(e) => Err(e),
        Ok(false) => Err(Error::PermissionDenied),
        Ok(true) => Ok(article::delete(store, id)),
    }
}

} // verus!

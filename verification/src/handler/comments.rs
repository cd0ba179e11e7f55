//! Gated comment operations: each checks the actor's permissions the way
//! the routes do, then performs the store operation.

use vstd::prelude::*;

use crate::comment;
use crate::comment::{article_comments, ascend, changes_applied, count_with_id, forest_matches,
    matches_subtree, max_comment_id, visibility_set, without_id, Comment, CommentChanges,
    NewComment, Node};
use crate::config::Settings;
use crate::error::Error;
use crate::markdown::html_of;
use crate::routes::{ArticlePath, CommentPath, Context};
use crate::store::{find_article_by_url, find_comment, Store};
use crate::text::spec_parse_i32;
use crate::user::{spec_session_allowed, Group, Permission, Session, User};

verus! {

/// The own-or-foreign moderation rule over one comment: the blanket
/// permission wins outright; the narrower permission needs the comment to
/// exist and be the actor's own. A missing comment surfaces only on the
/// narrow path, where the row had to be read.
pub open spec fn moderate_gate(
    users: Seq<User>,
    groups: Seq<Group>,
    comments: Seq<Comment>,
    s: Session,
    id: i64,
    foreign: Permission,
    own: Permission,
) -> Result<bool, Error> {
    match spec_session_allowed(users, groups, s, foreign) {
        Err(e) => Err(e),
        Ok(true) => Ok(true),
        Ok(false) => match spec_session_allowed(users, groups, s, own) {
            Err(e) => Err(e),
            Ok(false) => Ok(false),
            Ok(true) => match find_comment(comments, id) {
                None => Err(Error::NotFound),
                Some(c) => Ok(c.author matches Some(a) && a@ == s.user@),
            },
        },
    }
}

/// Evaluate the own-or-foreign moderation rule for one actor and comment.
fn check_moderate(store: &Store, s: &Session, id: i64, foreign: Permission, own: Permission) -> (r:
    Result<bool, Error>)
    ensures
        r == moderate_gate(store.users@, store.groups@, store.comments@, *s, id, foreign, own),
{
    match s.allowed(foreign, store) {
        Err(e) => Err(e),
        Ok(true) => Ok(true),
        Ok(false) => match s.allowed(own, store) {
            Err(e) => Err(e),
            Ok(false) => Ok(false),
            Ok(true) => match comment::author(store, id) {
                Err(e) => Err(e),
                Ok(author) => {
                    let own_comment = match &author {
                        Some(a) => a.as_str().eq(s.user.as_str()),
                        None => false,
                    };
                    Ok(own_comment)
                },
            },
        },
    }
}

/// The comment forest of the article the path names.
pub fn list(store: &Store, article: &ArticlePath) -> (r: Result<Vec<Node>, Error>)
    ensures
        match spec_parse_i32(article.id@) {
            Some(v) => r matches Ok(ns) && forest_matches(
                article_comments(store.comments@, v as i64),
                ns@,
            ),
            None => match find_article_by_url(store.articles@, article.id@) {
                Some(a) => r matches Ok(ns) && forest_matches(
                    article_comments(store.comments@, a.id),
                    ns@,
                ),
                None => r == Err::<Vec<Node>, Error>(Error::NotFound),
            },
        },
{
    let id = match article.find_id(store) {
        Ok(id) => id,
        Err(e) => {
            return Err(e);
        },
    };
    Ok(comment::list(store, id))
}

/// One comment in its thread context, climbed as many levels as the query
/// asks (none when the query is silent).
pub fn view(store: &Store, path: &CommentPath, query: &Context) -> (r: Option<Node>)
    ensures
        match find_comment(store.comments@, path.id) {
            None => r is None,
            Some(c) => match r {
                Some(n) => {
                    let flat = article_comments(store.comments@, c.article);
                    let depth = (match query.context {
                        Some(d) => d,
                        None => 0,
                    });
                    &&& n.comment == ascend(flat, c, depth as nat)
                    &&& matches_subtree(flat, n.comment, flat.len(), n)
                },
                None => false,
            },
        },
{
    let depth = match query.context {
        Some(d) => d,
        None => 0,
    };
    comment::view(store, path.id, depth)
}

/// One bare comment row.
pub fn single(store: &Store, path: &CommentPath) -> (r: Option<Comment>)
    ensures
        r == find_comment(store.comments@, path.id),
{
    comment::view_single(store, path.id)
}

/// The rendered body of one comment.
pub fn render_content(store: &Store, path: &CommentPath) -> (r: Option<String>)
    ensures
        match find_comment(store.comments@, path.id) {
            Some(c) => r matches Some(h) && h@ == html_of(c.content@, true),
            None => r is None,
        },
{
    match comment::view_single(store, path.id) {
        Some(c) => Some(c.formatted()),
        None => None,
    }
}

/// One comment prepared for a standalone rendering: shown whatever its
/// visibility flag says, with its rendered body alongside.
pub fn render(store: &Store, path: &CommentPath) -> (r: Option<(Comment, String)>)
    ensures
        match find_comment(store.comments@, path.id) {
            Some(c) => r matches Some((rc, h)) && rc == (Comment { visible: true, ..c }) && h@
                == html_of(c.content@, true),
            None => r is None,
        },
{
    match comment::view_single(store, path.id) {
        Some(c) => {
            let html = c.formatted();
            let mut shown = c;
            shown.visible = true;
            Some((shown, html))
        },
        None => None,
    }
}

/// Submit a comment: guests may only when the feature allows it, nobody may
/// sign another author's name, and a comment with an author is made visible
/// outright.
pub fn submit(
    store: &mut Store,
    session: Option<&Session>,
    settings: &Settings,
    new: NewComment,
    now: i64,
) -> (r: Result<Comment, Error>)
    requires
        max_comment_id(old(store).comments@) < i64::MAX,
    ensures
        ({
            let authored_ok = match (new.author, session) {
                (None, None) => true,
                (Some(a), Some(s)) => a@ == s.user@,
                _ => false,
            };
            if session is None && !settings.features.guest_comments {
                r == Err::<Comment, Error>(Error::PermissionDenied) && *final(store) == *old(store)
            } else if !authored_ok {
                r == Err::<Comment, Error>(Error::PermissionDenied) && *final(store) == *old(store)
            } else {
                match r {
                    Ok(c) => {
                        &&& c.id == max_comment_id(old(store).comments@) + 1
                        &&& c.parent == new.parent
                        &&& c.article == new.article
                        &&& c.author == new.author
                        &&& c.name == new.name
                        &&& c.content == new.content
                        &&& c.date == now
                        &&& c.visible == (new.visible || new.author is Some)
                        &&& final(store).comments@ == old(store).comments@.push(c)
                        &&& final(store).articles == old(store).articles
                        &&& final(store).users == old(store).users
                        &&& final(store).groups == old(store).groups
                        &&& final(store).sessions == old(store).sessions
                    },
                    Err(_) => false,
                }
            }
        }),
        old(store).wf() ==> final(store).wf(),
{
    if session.is_none() && !settings.features.guest_comments {
        return Err(Error::PermissionDenied);
    }
    let mut new = new;
    // Make guest comments invisible by default
    if new.author.is_some() {
        new.visible = true;
    }
    // Ensure comment is submitted as own user
    let authored_ok = match (&new.author, session) {
        (None, None) => true,
        (Some(a), Some(s)) => a.as_str().eq(s.user.as_str()),
        _ => false,
    };
    if !authored_ok {
        return Err(Error::PermissionDenied);
    }
    Ok(comment::submit(store, new, now))
}

/// Edit a comment, for its author or a moderator.
pub fn edit(
    store: &mut Store,
    session: Option<&Session>,
    path: &CommentPath,
    changes: CommentChanges,
) -> (r: Result<usize, Error>)
    ensures
        match session {
            None => r == Err::<usize, Error>(Error::PermissionDenied) && *final(store) == *old(
                store,
            ),
            Some(s) => match moderate_gate(
                old(store).users@,
                old(store).groups@,
                old(store).comments@,
                *s,
                path.id,
                Permission::EditForeignComment,
                Permission::EditComment,
            ) {
                Err(e) => r == Err::<usize, Error>(e) && *final(store) == *old(store),
                Ok(false) => r == Err::<usize, Error>(Error::PermissionDenied) && *final(store)
                    == *old(store),
                Ok(true) => {
                    &&& r matches Ok(n) && n as int == count_with_id(old(store).comments@, path.id)
                    &&& changes_applied(
                        old(store).comments@,
                        final(store).comments@,
                        path.id,
                        changes,
                    )
                    &&& final(store).articles == old(store).articles
                    &&& final(store).users == old(store).users
                    &&& final(store).groups == old(store).groups
                    &&& final(store).sessions == old(store).sessions
                },
            },
        },
        old(store).wf() ==> final(store).wf(),
{
    let s = match session {
        None => {
            return Err(Error::PermissionDenied);
        },
        Some(s) => s,
    };
    match check_moderate(
        store,
        s,
        path.id,
        Permission::EditForeignComment,
        Permission::EditComment,
    ) {
        Err(e) => Err(e),
        Ok(false) => Err(Error::PermissionDenied),
        Ok(true) => Ok(comment::edit(store, path.id, changes)),
    }
}

/// Soft-delete a comment, for its author or a moderator.
pub fn delete(store: &mut Store, session: Option<&Session>, path: &CommentPath) -> (r: Result<
    usize,
    Error,
>)
    ensures
        match session {
            None => r == Err::<usize, Error>(Error::PermissionDenied) && *final(store) == *old(
                store,
            ),
            Some(s) => match moderate_gate(
                old(store).users@,
                old(store).groups@,
                old(store).comments@,
                *s,
                path.id,
                Permission::DeleteForeignComment,
                Permission::DeleteComment,
            ) {
                Err(e) => r == Err::<usize, Error>(e) && *final(store) == *old(store),
                Ok(false) => r == Err::<usize, Error>(Error::PermissionDenied) && *final(store)
                    == *old(store),
                Ok(true) => {
                    &&& r matches Ok(n) && n as int == count_with_id(old(store).comments@, path.id)
                    &&& visibility_set(
                        old(store).comments@,
                        final(store).comments@,
                        path.id,
                        false,
                    )
                    &&& final(store).articles == old(store).articles
                    &&& final(store).users == old(store).users
                    &&& final(store).groups == old(store).groups
                    &&& final(store).sessions == old(store).sessions
                },
            },
        },
        old(store).wf() ==> final(store).wf(),
{
    let s = match session {
        None => {
            return Err(Error::PermissionDenied);
        },
        Some(s) => s,
    };
    match check_moderate(
        store,
        s,
        path.id,
        Permission::DeleteForeignComment,
        Permission::DeleteComment,
    ) {
        Err(e) => Err(e),
        Ok(false) => Err(Error::PermissionDenied),
        Ok(true) => Ok(comment::delete(store, path.id)),
    }
}

/// Undo a comment's soft deletion, for its author or a moderator.
pub fn restore(store: &mut Store, session: Option<&Session>, path: &CommentPath) -> (r: Result<
    usize,
    Error,
>)
    ensures
        match session {
            None => r == Err::<usize, Error>(Error::PermissionDenied) && *final(store) == *old(
                store,
            ),
            Some(s) => match moderate_gate(
                old(store).users@,
                old(store).groups@,
                old(store).comments@,
                *s,
                path.id,
                Permission::DeleteForeignComment,
                Permission::DeleteComment,
            ) {
                Err(e) => r == Err::<usize, Error>(e) && *final(store) == *old(store),
                Ok(false) => r == Err::<usize, Error>(Error::PermissionDenied) && *final(store)
                    == *old(store),
                Ok(true) => {
                    &&& r matches Ok(n) && n as int == count_with_id(old(store).comments@, path.id)
                    &&& visibility_set(old(store).comments@, final(store).comments@, path.id, true)
                    &&& final(store).articles == old(store).articles
                    &&& final(store).users == old(store).users
                    &&& final(store).groups == old(store).groups
                    &&& final(store).sessions == old(store).sessions
                },
            },
        },
        old(store).wf() ==> final(store).wf(),
{
    let s = match session {
        None => {
            return Err(Error::PermissionDenied);
        },
        Some(s) => s,
    };
    match check_moderate(
        store,
        s,
        path.id,
        Permission::DeleteForeignComment,
        Permission::DeleteComment,
    ) {
        Err(e) => Err(e),
        Ok(false) => Err(Error::PermissionDenied),
        Ok(true) => Ok(comment::restore(store, path.id)),
    }
}

/// Physically remove a comment: only the blanket delete permission may, and
/// only when the comment has no direct replies.
pub fn purge(store: &mut Store, session: Option<&Session>, path: &CommentPath) -> (r: Result<
    usize,
    Error,
>)
    ensures
        match session {
            None => r == Err::<usize, Error>(Error::PermissionDenied) && *final(store) == *old(
                store,
            ),
            Some(s) => match spec_session_allowed(
                old(store).users@,
                old(store).groups@,
                *s,
                Permission::DeleteForeignComment,
            ) {
                Err(e) => r == Err::<usize, Error>(e) && *final(store) == *old(store),
                Ok(false) => r == Err::<usize, Error>(Error::PermissionDenied) && *final(store)
                    == *old(store),
                Ok(true) => match r {
                    Err(e) => {
                        &&& e == Error::HasChildren
                        &&& exists|j: int|
                            0 <= j < old(store).comments@.len() && old(store).comments@[j].parent
                                == Some(path.id)
                        &&& *final(store) == *old(store)
                    },
                    Ok(n) => {
                        &&& forall|j: int|
                            0 <= j < old(store).comments@.len() ==> old(
                                store,
                            ).comments@[j].parent != Some(path.id)
                        &&& final(store).comments@ == without_id(old(store).comments@, path.id)
                        &&& n as int == count_with_id(old(store).comments@, path.id)
                        &&& final(store).articles == old(store).articles
                        &&& final(store).users == old(store).users
                        &&& final(store).groups == old(store).groups
                        &&& final(store).sessions == old(store).sessions
                    },
                },
            },
        },
        old(store).wf() ==> final(store).wf(),
{
    let s = match session {
        None => {
            return Err(Error::PermissionDenied);
        },
        Some(s) => s,
    };
    match s.allowed(Permission::DeleteForeignComment, store) {
        Err(e) => Err(e),
        Ok(false) => Err(Error::PermissionDenied),
        Ok(true) => comment::purge(store, path.id),
    }
}

} // verus!

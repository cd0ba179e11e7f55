//! The comment store operations: insertion, edits, the soft-delete
//! lifecycle, and the purge precondition.

use mogger::comment::{self, Comment, CommentChanges, NewComment};
use mogger::error::Error;
use mogger::store::Store;

fn comment(id: i64, parent: Option<i64>) -> Comment {
    Comment {
        id,
        parent,
        article: 1,
        author: None,
        name: Some(String::from("guest")),
        content: String::from("hello"),
        date: 100,
        visible: true,
    }
}

fn store_with(comments: Vec<Comment>) -> Store {
    Store {
        articles: Vec::new(),
        comments,
        users: Vec::new(),
        groups: Vec::new(),
        sessions: Vec::new(),
    }
}

/// Purge on a comment with zero children removes the row.
#[test]
fn purge_leaf_succeeds() {
    let mut store = store_with(vec![comment(1, None), comment(2, Some(1))]);
    let r = comment::purge(&mut store, 2);
    assert_eq!(r, Ok(1));
    assert_eq!(store.comments.len(), 1);
    assert_eq!(store.comments[0].id, 1);
}

/// Purge on a comment with a child fails with the has-children error and
/// changes nothing.
#[test]
fn purge_with_children_refused() {
    let mut store = store_with(vec![comment(1, None), comment(2, Some(1))]);
    let r = comment::purge(&mut store, 1);
    assert_eq!(r, Err(Error::HasChildren));
    assert_eq!(store.comments.len(), 2);
    assert_eq!(store.comments[0].id, 1);
    assert_eq!(store.comments[0].visible, true);
    assert_eq!(store.comments[1].id, 2);
}

/// Purge of a missing id removes nothing and reports zero rows.
#[test]
fn purge_missing_is_empty() {
    let mut store = store_with(vec![comment(1, None)]);
    assert_eq!(comment::purge(&mut store, 9), Ok(0));
    assert_eq!(store.comments.len(), 1);
}

/// The store assigns one past the greatest id, and stamps the given time.
#[test]
fn submit_assigns_next_id() {
    let mut store = store_with(vec![comment(4, None), comment(2, None)]);
    let new = NewComment {
        parent: Some(4),
        article: 1,
        author: None,
        name: Some(String::from("guest")),
        content: String::from("reply"),
        visible: false,
    };
    let submitted = comment::submit(&mut store, new, 12345);
    assert_eq!(submitted.id, 5);
    assert_eq!(submitted.date, 12345);
    assert_eq!(submitted.parent, Some(4));
    assert_eq!(submitted.visible, false);
    assert_eq!(store.comments.len(), 3);
    assert_eq!(store.comments[2].id, 5);
}

/// Soft delete hides the row, restore shows it again; both leave the rest
/// alone.
#[test]
fn hide_and_restore() {
    let mut store = store_with(vec![comment(1, None), comment(2, Some(1))]);
    assert_eq!(comment::delete(&mut store, 2), 1);
    assert_eq!(store.comments[1].visible, false);
    assert_eq!(store.comments[0].visible, true);
    assert_eq!(store.comments[1].content, "hello");
    assert_eq!(comment::restore(&mut store, 2), 1);
    assert_eq!(store.comments[1].visible, true);
}

/// Edits replace exactly the editable fields of the one matching row.
#[test]
fn edit_changes_fields() {
    let mut store = store_with(vec![comment(1, None), comment(2, Some(1))]);
    let n = comment::edit(
        &mut store,
        1,
        CommentChanges {
            name: Some(String::from("renamed")),
            content: String::from("edited"),
            visible: false,
        },
    );
    assert_eq!(n, 1);
    assert_eq!(store.comments[0].content, "edited");
    assert_eq!(store.comments[0].name, Some(String::from("renamed")));
    assert_eq!(store.comments[0].visible, false);
    assert_eq!(store.comments[1].content, "hello");
}

/// The author column of a missing row is an error, not an empty answer.
#[test]
fn author_of_missing_row() {
    let store = store_with(vec![comment(1, None)]);
    assert_eq!(comment::author(&store, 9), Err(Error::NotFound));
    assert_eq!(comment::author(&store, 1), Ok(None));
}

/// Comments are found by their author's account name.
#[test]
fn by_user_filters_by_author() {
    let mut a = comment(1, None);
    a.author = Some(String::from("ada"));
    let mut b = comment(2, None);
    b.author = Some(String::from("bob"));
    let mut c = comment(3, None);
    c.author = Some(String::from("ada"));
    let store = store_with(vec![a, b, c]);
    let found = comment::by_user(&store, "ada");
    let ids: Vec<i64> = found.iter().map(|x| x.id).collect();
    assert_eq!(ids, vec![1, 3]);
}

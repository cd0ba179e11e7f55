//! The permission model and the visibility/editability gates.

use mogger::article::Article;
use mogger::comment::Comment;
use mogger::error::Error;
use mogger::store::Store;
use mogger::user::{Group, Permission, Session, User};

fn user(id: &str, group: &str) -> User {
    User {
        id: String::from(id),
        hash: String::from("irrelevant"),
        salt: Vec::new(),
        name: String::from(id),
        email: String::from("user@example.org"),
        group: String::from(group),
        rehash: false,
    }
}

fn session(id: &str, user: &str) -> Session {
    Session { id: String::from(id), user: String::from(user), expires: i64::MAX }
}

fn comment(id: i64, author: Option<&str>, visible: bool) -> Comment {
    Comment {
        id,
        parent: None,
        article: 1,
        author: author.map(String::from),
        name: if author.is_none() {
            Some(String::from("guest"))
        } else {
            None
        },
        content: String::from("text"),
        date: 0,
        visible,
    }
}

/// A store with three groups: moderators (foreign edits), members (own
/// edits), and lurkers (nothing).
fn gate_store() -> Store {
    Store {
        articles: Vec::new(),
        comments: Vec::new(),
        users: vec![user("mod", "mods"), user("mem", "members"), user("lurk", "lurkers")],
        groups: vec![
            Group::new(
                String::from("mods"),
                vec![Permission::EditForeignComment, Permission::EditForeignArticle],
            ),
            Group::new(
                String::from("members"),
                vec![Permission::EditComment, Permission::EditArticle],
            ),
            Group::new(String::from("lurkers"), Vec::new()),
        ],
        sessions: Vec::new(),
    }
}

/// A visible comment is viewable by anyone, the anonymous included.
#[test]
fn visible_comment_viewable_by_all() {
    let store = gate_store();
    let c = comment(1, Some("mem"), true);
    assert_eq!(c.viewable(None, &store), Ok(true));
    assert_eq!(c.viewable(Some(&session("s", "lurk")), &store), Ok(true));
    assert_eq!(c.viewable(Some(&session("s", "mod")), &store), Ok(true));
}

/// A hidden comment shows to the blanket permission, and to nobody without
/// edit rights.
#[test]
fn hidden_comment_gated() {
    let store = gate_store();
    let c = comment(1, Some("mem"), false);
    assert_eq!(c.viewable(Some(&session("s", "mod")), &store), Ok(true));
    assert_eq!(c.viewable(None, &store), Ok(false));
    assert_eq!(c.viewable(Some(&session("s", "lurk")), &store), Ok(false));
}

/// Own-or-foreign: the narrow permission reaches only the actor's own
/// comments; the blanket permission reaches them all, guest comments
/// included.
#[test]
fn own_or_foreign_composite() {
    let store = gate_store();
    let own = comment(1, Some("mem"), true);
    let foreign = comment(2, Some("mod"), true);
    let guest = comment(3, None, true);
    let member = session("s1", "mem");
    let moderator = session("s2", "mod");

    assert_eq!(own.editable(Some(&member), &store), Ok(true));
    assert_eq!(foreign.editable(Some(&member), &store), Ok(false));
    assert_eq!(guest.editable(Some(&member), &store), Ok(false));

    assert_eq!(own.editable(Some(&moderator), &store), Ok(true));
    assert_eq!(foreign.editable(Some(&moderator), &store), Ok(true));
    assert_eq!(guest.editable(Some(&moderator), &store), Ok(true));

    assert_eq!(own.editable(None, &store), Ok(false));
}

/// The wildcard grants every check.
#[test]
fn wildcard_grants_all() {
    let mut store = gate_store();
    store.groups.push(Group::new(String::from("admins"), vec![Permission::All]));
    store.users.push(user("root", "admins"));
    let admin = session("s", "root");
    let foreign = comment(1, Some("mem"), false);
    assert_eq!(foreign.viewable(Some(&admin), &store), Ok(true));
    assert_eq!(foreign.editable(Some(&admin), &store), Ok(true));
}

/// A permission check against a missing group or user is a data-integrity
/// fault, not a quiet denial.
#[test]
fn missing_group_is_integrity_fault() {
    let mut store = gate_store();
    store.users.push(user("odd", "no_such_group"));
    let c = comment(1, Some("mem"), false);
    assert_eq!(c.editable(Some(&session("s", "odd")), &store), Err(Error::IntegrityFault));
    assert_eq!(c.editable(Some(&session("s", "ghost")), &store), Err(Error::IntegrityFault));
}

/// Articles follow the same own-or-foreign gate, keyed by their author.
#[test]
fn article_gates() {
    let store = gate_store();
    let draft = Article {
        id: 1,
        title: String::from("t"),
        author: String::from("mem"),
        url: String::from("t"),
        content: String::from("body"),
        date: 0,
        visible: false,
    };
    assert_eq!(draft.viewable(None, &store), Ok(false));
    assert_eq!(draft.viewable(Some(&session("s", "mem")), &store), Ok(true));
    assert_eq!(draft.viewable(Some(&session("s", "mod")), &store), Ok(true));
    assert_eq!(draft.viewable(Some(&session("s", "lurk")), &store), Ok(false));
    assert_eq!(draft.editable(Some(&session("s", "mem")), &store), Ok(true));
}

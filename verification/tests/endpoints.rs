//! The gated request operations: who may submit, edit, hide, restore and
//! purge through the routes, and what the pages show.

use mogger::comment::{Comment, CommentChanges, NewComment};
use mogger::config::{Cookie, Features, Settings};
use mogger::error::Error;
use mogger::handler;
use mogger::routes::{ArticlePath, CommentPath, Context};
use mogger::store::Store;
use mogger::user::{Group, Permission, Session, User};

fn user(id: &str, group: &str) -> User {
    User {
        id: String::from(id),
        hash: String::from("irrelevant"),
        salt: Vec::new(),
        name: String::from(id),
        email: String::from("user@example.org"),
        group: String::from(group),
        rehash: false,
    }
}

fn session(user: &str) -> Session {
    Session { id: String::from("token"), user: String::from(user), expires: i64::MAX }
}

fn comment(id: i64, parent: Option<i64>, author: Option<&str>) -> Comment {
    Comment {
        id,
        parent,
        article: 1,
        author: author.map(String::from),
        name: if author.is_none() {
            Some(String::from("guest"))
        } else {
            None
        },
        content: String::from("text"),
        date: 0,
        visible: true,
    }
}

fn settings(guest_comments: bool, signups: bool) -> Settings {
    Settings {
        database_url: String::new(),
        host_address: String::new(),
        features: Features { signups, guest_comments },
        cookie: Cookie { secure: false, domain: None },
    }
}

fn moderated_store() -> Store {
    Store {
        articles: vec![mogger::article::Article {
            id: 1,
            title: String::from("t"),
            author: String::from("mem"),
            url: String::from("first-post"),
            content: String::from("body"),
            date: 0,
            visible: true,
        }],
        comments: vec![comment(1, None, Some("mem")), comment(2, Some(1), Some("mod"))],
        users: vec![user("mod", "mods"), user("mem", "members")],
        groups: vec![
            Group::new(
                String::from("mods"),
                vec![
                    Permission::EditForeignComment,
                    Permission::DeleteForeignComment,
                    Permission::EditForeignArticle,
                    Permission::DeleteForeignArticle,
                    Permission::CreateArticle,
                ],
            ),
            Group::new(
                String::from("members"),
                vec![Permission::EditComment, Permission::DeleteComment, Permission::EditArticle],
            ),
        ],
        sessions: Vec::new(),
    }
}

/// Guests may submit only while the feature is on, and nobody may sign
/// someone else's name.
#[test]
fn comment_submission_gate() {
    let mut store = moderated_store();
    let guest = NewComment {
        parent: None,
        article: 1,
        author: None,
        name: Some(String::from("guest")),
        content: String::from("hi"),
        visible: false,
    };
    let r = handler::comments::submit(&mut store, None, &settings(false, false), guest, 50);
    assert_eq!(r.unwrap_err(), Error::PermissionDenied);
    assert_eq!(store.comments.len(), 2);

    let guest2 = NewComment {
        parent: None,
        article: 1,
        author: None,
        name: Some(String::from("guest")),
        content: String::from("hi"),
        visible: false,
    };
    let ok = handler::comments::submit(&mut store, None, &settings(true, false), guest2, 50)
        .expect("guests allowed");
    assert_eq!(ok.id, 3);
    // guest comments stay invisible by default
    assert_eq!(ok.visible, false);

    let forged = NewComment {
        parent: None,
        article: 1,
        author: Some(String::from("mod")),
        name: None,
        content: String::from("hi"),
        visible: false,
    };
    let s = session("mem");
    let r = handler::comments::submit(&mut store, Some(&s), &settings(true, false), forged, 50);
    assert_eq!(r.unwrap_err(), Error::PermissionDenied);

    let own = NewComment {
        parent: None,
        article: 1,
        author: Some(String::from("mem")),
        name: None,
        content: String::from("hi"),
        visible: false,
    };
    let ok = handler::comments::submit(&mut store, Some(&s), &settings(true, false), own, 51)
        .expect("own name");
    // comments with an author are made visible outright
    assert_eq!(ok.visible, true);
}

/// Moderation: the author and the moderator may hide, others may not; the
/// moderator alone may purge, and only leaves.
#[test]
fn moderation_gates() {
    let mut store = moderated_store();
    let member = session("mem");
    let moderator = session("mod");
    let path1 = CommentPath { id: 1 };
    let path2 = CommentPath { id: 2 };

    assert_eq!(
        handler::comments::delete(&mut store, None, &path1).unwrap_err(),
        Error::PermissionDenied
    );
    // the member owns comment 1 but not comment 2
    assert_eq!(handler::comments::delete(&mut store, Some(&member), &path1), Ok(1));
    assert_eq!(store.comments[0].visible, false);
    assert_eq!(
        handler::comments::delete(&mut store, Some(&member), &path2).unwrap_err(),
        Error::PermissionDenied
    );
    assert_eq!(handler::comments::restore(&mut store, Some(&member), &path1), Ok(1));
    assert_eq!(store.comments[0].visible, true);

    // editing follows the same composite
    let changes = CommentChanges {
        name: None,
        content: String::from("edited"),
        visible: true,
    };
    assert_eq!(handler::comments::edit(&mut store, Some(&moderator), &path1, changes), Ok(1));
    assert_eq!(store.comments[0].content, "edited");

    // purge needs the blanket permission, and a leaf
    assert_eq!(
        handler::comments::purge(&mut store, Some(&member), &path2).unwrap_err(),
        Error::PermissionDenied
    );
    assert_eq!(
        handler::comments::purge(&mut store, Some(&moderator), &path1).unwrap_err(),
        Error::HasChildren
    );
    assert_eq!(store.comments.len(), 2);
    assert_eq!(handler::comments::purge(&mut store, Some(&moderator), &path2), Ok(1));
    assert_eq!(store.comments.len(), 1);
}

/// The comment list and context view resolve their article path, numeric or
/// pretty.
#[test]
fn list_and_view_resolve_paths() {
    let store = moderated_store();
    let by_id = handler::comments::list(&store, &ArticlePath { id: String::from("1") })
        .expect("article 1");
    assert_eq!(by_id.len(), 1);
    assert_eq!(by_id[0].comment.id, 1);
    let by_url = handler::comments::list(&store, &ArticlePath { id: String::from("first-post") })
        .expect("by url");
    assert_eq!(by_url.len(), 1);
    let missing = handler::comments::list(&store, &ArticlePath { id: String::from("no-such") });
    assert_eq!(missing.unwrap_err(), Error::NotFound);

    let node = handler::comments::view(
        &store,
        &CommentPath { id: 2 },
        &Context { context: Some(1) },
    ).expect("context view");
    assert_eq!(node.comment.id, 1);
    let plain = handler::comments::view(&store, &CommentPath { id: 2 }, &Context { context: None })
        .expect("no climbing");
    assert_eq!(plain.comment.id, 2);
}

/// A standalone comment rendering is shown whatever the visibility flag
/// said.
#[test]
fn render_forces_visibility() {
    let mut store = moderated_store();
    store.comments[0].visible = false;
    let (shown, html) = handler::comments::render(&store, &CommentPath { id: 1 })
        .expect("comment exists");
    assert_eq!(shown.visible, true);
    assert!(html.contains("text"));
    assert!(handler::comments::render(&store, &CommentPath { id: 99 }).is_none());
}

/// Article submission and editing follow the article gates.
#[test]
fn article_endpoints() {
    let mut store = moderated_store();
    let moderator = session("mod");
    let member = session("mem");

    let new = mogger::article::NewArticle {
        title: String::from("second"),
        url: String::from("second-post"),
        content: String::from("more"),
        author: String::from("mod"),
        visible: true,
    };
    assert_eq!(
        handler::articles::submit(&mut store, Some(&member), &new, 60).unwrap_err(),
        Error::PermissionDenied
    );
    assert_eq!(handler::articles::submit(&mut store, Some(&moderator), &new, 60), Ok(1));
    assert_eq!(store.articles.len(), 2);
    assert_eq!(store.articles[1].id, 2);

    let bad_url = mogger::article::NewArticle {
        title: String::from("x"),
        url: String::from("what?really"),
        content: String::from("x"),
        author: String::from("mod"),
        visible: true,
    };
    assert_eq!(
        handler::articles::submit(&mut store, Some(&moderator), &bad_url, 61).unwrap_err(),
        Error::UrlInvalid
    );

    let changes = mogger::article::ArticleChanges {
        title: String::from("renamed"),
        url: String::from("first-post"),
        content: String::from("body"),
        visible: true,
    };
    // the member owns article 1
    assert_eq!(handler::articles::edit(&mut store, Some(&member), 1, &changes), Ok(1));
    assert_eq!(store.articles[0].title, "renamed");
    assert_eq!(
        handler::articles::edit(&mut store, Some(&member), 2, &changes).unwrap_err(),
        Error::PermissionDenied
    );

    assert_eq!(handler::articles::delete(&mut store, Some(&moderator), 2), Ok(1));
    assert_eq!(store.articles.len(), 1);
}

/// The article page hides what the actor may not see and carries the
/// comment forest.
#[test]
fn article_page() {
    let mut store = moderated_store();
    let page = mogger::document::article::view(
        &store,
        None,
        &ArticlePath { id: String::from("first-post") },
    )
    .expect("no fault")
    .expect("article visible");
    assert_eq!(page.article.id, 1);
    assert_eq!(page.author_name, "mem");
    assert_eq!(page.comments.len(), 1);
    assert_eq!(page.comments[0].children.len(), 1);

    store.articles[0].visible = false;
    let hidden = mogger::document::article::view(
        &store,
        None,
        &ArticlePath { id: String::from("first-post") },
    )
    .expect("no fault");
    assert!(hidden.is_none());
}

/// The index withholds everything until the first account exists, then
/// lists articles newest first.
#[test]
fn index_and_setup() {
    let mut store = moderated_store();
    store.articles.push(mogger::article::Article {
        id: 2,
        title: String::from("newer"),
        author: String::from("mem"),
        url: String::from("newer"),
        content: String::from("x"),
        date: 10,
        visible: true,
    });
    let articles = mogger::document::index::index(&store).expect("users exist");
    assert_eq!(articles[0].id, 2);
    assert_eq!(articles[1].id, 1);

    store.users.clear();
    assert!(mogger::document::index::index(&store).is_none());
}

/// Signups through the API need a session or the feature switch.
#[test]
fn user_creation_gate() {
    let mut store = moderated_store();
    store.groups.push(Group::new(String::from("default"), Vec::new()));
    let nu = mogger::user::NewUser {
        id: String::from("fresh"),
        password: String::from("password-1"),
        name: String::from("Fresh"),
        email: String::from("fresh@example.org"),
        group: String::from("default"),
        phone: String::new(),
    };
    let r = handler::users::create(&mut store, None, &settings(false, false), nu);
    assert_eq!(r.unwrap_err(), Error::PermissionDenied);
    assert_eq!(store.users.len(), 2);
}

/// The signup page traps spam bots by their filled hidden field.
#[test]
fn signup_spam_trap() {
    let mut store = moderated_store();
    let nu = mogger::user::NewUser {
        id: String::from("bot"),
        password: String::from("password-1"),
        name: String::from("Bot"),
        email: String::from("bot@example.org"),
        group: String::from("default"),
        phone: String::from("555-1234"),
    };
    let r = mogger::document::user::signup_post(&mut store, nu);
    assert_eq!(r.unwrap_err(), Error::SpamSuspected);
    assert_eq!(store.users.len(), 2);
}

/// Initial setup signs the very first account up and in, once.
#[test]
fn initial_setup_once() {
    let mut store = Store {
        articles: Vec::new(),
        comments: Vec::new(),
        users: Vec::new(),
        groups: vec![Group::new(String::from("default"), vec![Permission::All])],
        sessions: Vec::new(),
    };
    let admin = mogger::user::NewUser {
        id: String::from("admin"),
        password: String::from("password-1"),
        name: String::from("Admin"),
        email: String::from("admin@example.org"),
        group: String::from("default"),
        phone: String::new(),
    };
    let session = mogger::document::index::init_setup_post(&mut store, admin).expect("first run");
    assert_eq!(session.user, "admin");
    assert_eq!(store.users.len(), 1);
    assert_eq!(store.sessions.len(), 1);

    let second = mogger::user::NewUser {
        id: String::from("admin2"),
        password: String::from("password-1"),
        name: String::from("A2"),
        email: String::from("a2@example.org"),
        group: String::from("default"),
        phone: String::new(),
    };
    let r = mogger::document::index::init_setup_post(&mut store, second);
    assert_eq!(r.unwrap_err(), Error::SetupComplete);
}

//! Account lifecycle: creation rules, login, password changes, deletion
//! with comment anonymization, and session resolution.

use mogger::comment::Comment;
use mogger::error::Error;
use mogger::store::Store;
use mogger::user::{self, Group, Login, NewUser, Permission, UserDeletion, UserProfile};

fn empty_store() -> Store {
    Store {
        articles: Vec::new(),
        comments: Vec::new(),
        users: Vec::new(),
        groups: vec![Group::new(String::from("default"), vec![Permission::CreateComment])],
        sessions: Vec::new(),
    }
}

fn new_user(id: &str, password: &str) -> NewUser {
    NewUser {
        id: String::from(id),
        password: String::from(password),
        name: String::from("Name"),
        email: String::from("name@example.org"),
        group: String::from("default"),
        phone: String::new(),
    }
}

/// A username with a character outside letters, digits, `-` and `_` is
/// refused.
#[test]
fn create_rejects_bad_username() {
    let mut store = empty_store();
    let r = user::create(&mut store, new_user("bad name!", "long enough"));
    assert_eq!(r, Err(Error::UsernameInvalid));
    assert!(store.users.is_empty());
}

/// A password under eight characters is refused.
#[test]
fn create_rejects_short_password() {
    let mut store = empty_store();
    let r = user::create(&mut store, new_user("fine-name_1", "short"));
    assert_eq!(r, Err(Error::PasswordTooShort));
    assert!(store.users.is_empty());
}

/// A taken username is refused.
#[test]
fn create_rejects_duplicate() {
    let mut store = empty_store();
    assert_eq!(user::create(&mut store, new_user("ada", "password-1")), Ok(1));
    let r = user::create(&mut store, new_user("ada", "password-2"));
    assert_eq!(r, Err(Error::Conflict));
    assert_eq!(store.users.len(), 1);
}

/// Created credentials log in; wrong ones answer `None`; an unknown name
/// answers `None`.
#[test]
fn login_round_trip() {
    let mut store = empty_store();
    assert_eq!(user::create(&mut store, new_user("ada", "password-1")), Ok(1));

    let bad = Login { user: String::from("ada"), password: String::from("password-x") };
    assert!(matches!(bad.login(&mut store), Ok(None)));
    assert!(store.sessions.is_empty());

    let unknown = Login { user: String::from("bob"), password: String::from("password-1") };
    assert!(matches!(unknown.login(&mut store), Ok(None)));

    let good = Login { user: String::from("ada"), password: String::from("password-1") };
    let session = good.login(&mut store).expect("no fault").expect("password matches");
    assert_eq!(session.user, "ada");
    assert_eq!(session.id.len(), 32);
    assert_eq!(store.sessions.len(), 1);
    assert_eq!(store.sessions[0].id, session.id);
}

/// Changing the password needs the old one; afterwards only the new one
/// logs in.
#[test]
fn change_password_cycle() {
    let mut store = empty_store();
    assert_eq!(user::create(&mut store, new_user("ada", "password-1")), Ok(1));

    let wrong = mogger::user::PasswordChange {
        old: String::from("password-x"),
        new: String::from("password-2"),
    };
    assert_eq!(user::change_password(&mut store, "ada", &wrong), Ok(false));

    let right = mogger::user::PasswordChange {
        old: String::from("password-1"),
        new: String::from("password-2"),
    };
    assert_eq!(user::change_password(&mut store, "ada", &right), Ok(true));

    let good = Login { user: String::from("ada"), password: String::from("password-2") };
    assert!(matches!(good.login(&mut store), Ok(Some(_))));

    assert_eq!(
        user::change_password(&mut store, "ghost", &right),
        Err(Error::NotFound)
    );
}

/// Deleting an account anonymizes its comments — and blanks them on a full
/// purge — then drops its sessions and its row.
#[test]
fn delete_account_anonymizes_comments() {
    let mut store = empty_store();
    assert_eq!(user::create(&mut store, new_user("ada", "password-1")), Ok(1));
    store.comments.push(Comment {
        id: 1,
        parent: None,
        article: 1,
        author: Some(String::from("ada")),
        name: None,
        content: String::from("mine"),
        date: 7,
        visible: true,
    });
    store.comments.push(Comment {
        id: 2,
        parent: None,
        article: 1,
        author: None,
        name: Some(String::from("guest")),
        content: String::from("not mine"),
        date: 8,
        visible: true,
    });

    let wrong = UserDeletion { password: String::from("password-x"), purge: false };
    assert_eq!(user::delete(&mut store, "ada", &wrong), Err(Error::WrongPassword));
    assert_eq!(store.users.len(), 1);

    let keep_content = UserDeletion { password: String::from("password-1"), purge: false };
    assert_eq!(user::delete(&mut store, "ada", &keep_content), Ok(()));
    assert!(store.users.is_empty());
    assert!(store.sessions.is_empty());
    let own = &store.comments[0];
    assert_eq!(own.author, None);
    assert_eq!(own.name, Some(String::from("[deleted]")));
    assert_eq!(own.content, "mine");
    assert_eq!(own.visible, false);
    let other = &store.comments[1];
    assert_eq!(other.name, Some(String::from("guest")));
    assert_eq!(other.visible, true);
}

/// A full purge blanks the comment text as well.
#[test]
fn delete_account_full_purge_blanks_content() {
    let mut store = empty_store();
    assert_eq!(user::create(&mut store, new_user("ada", "password-1")), Ok(1));
    store.comments.push(Comment {
        id: 1,
        parent: None,
        article: 1,
        author: Some(String::from("ada")),
        name: None,
        content: String::from("mine"),
        date: 7,
        visible: true,
    });
    let purge = UserDeletion { password: String::from("password-1"), purge: true };
    assert_eq!(user::delete(&mut store, "ada", &purge), Ok(()));
    assert_eq!(store.comments[0].content, "");
    assert_eq!(store.comments[0].author, None);
}

/// A malformed stored hash is a crypto failure, not a denial.
#[test]
fn malformed_hash_is_crypto_failure() {
    let mut store = empty_store();
    store.users.push(mogger::user::User {
        id: String::from("odd"),
        hash: String::from("not a bcrypt hash"),
        salt: Vec::new(),
        name: String::from("Odd"),
        email: String::from("odd@example.org"),
        group: String::from("default"),
        rehash: false,
    });
    let login = Login { user: String::from("odd"), password: String::from("whatever!") };
    assert_eq!(login.login(&mut store).unwrap_err(), Error::CryptoFailure);
}

/// Profile edits land on the one account and touch nothing else.
#[test]
fn edit_profile_changes_row() {
    let mut store = empty_store();
    assert_eq!(user::create(&mut store, new_user("ada", "password-1")), Ok(1));
    let n = user::edit_profile(
        &mut store,
        "ada",
        &UserProfile { name: String::from("Ada L."), email: String::from("ada@example.org") },
    );
    assert_eq!(n, 1);
    assert_eq!(store.users[0].name, "Ada L.");
    assert_eq!(store.users[0].email, "ada@example.org");
    assert_eq!(user::edit_profile(&mut store, "ghost", &UserProfile {
        name: String::new(),
        email: String::new(),
    }), 0);
}

/// An expired session is dropped on resolution; a live one is attached.
#[test]
fn resolve_session_expiry() {
    let mut store = empty_store();
    store.sessions.push(mogger::user::Session {
        id: String::from("stale"),
        user: String::from("ada"),
        expires: 100,
    });
    store.sessions.push(mogger::user::Session {
        id: String::from("fresh"),
        user: String::from("ada"),
        expires: 10_000,
    });

    assert!(user::resolve_session(&mut store, None, 500).is_none());
    assert_eq!(store.sessions.len(), 2);

    assert!(user::resolve_session(&mut store, Some("stale"), 500).is_none());
    assert_eq!(store.sessions.len(), 1);
    assert_eq!(store.sessions[0].id, "fresh");

    let live = user::resolve_session(&mut store, Some("fresh"), 500).expect("still valid");
    assert_eq!(live.user, "ada");
    assert_eq!(store.sessions.len(), 1);
}

/// Logging out drops exactly the named session.
#[test]
fn logout_drops_session() {
    let mut store = empty_store();
    store.sessions.push(mogger::user::Session {
        id: String::from("a"),
        user: String::from("ada"),
        expires: 10,
    });
    store.sessions.push(mogger::user::Session {
        id: String::from("b"),
        user: String::from("ada"),
        expires: 10,
    });
    assert_eq!(user::logout(&mut store, "a"), 1);
    assert_eq!(store.sessions.len(), 1);
    assert_eq!(store.sessions[0].id, "b");
    assert_eq!(user::logout(&mut store, "a"), 0);
}

/// User counting.
#[test]
fn count_users() {
    let mut store = empty_store();
    assert_eq!(user::count(&store), 0);
    assert_eq!(user::create(&mut store, new_user("ada", "password-1")), Ok(1));
    assert_eq!(user::count(&store), 1);
}

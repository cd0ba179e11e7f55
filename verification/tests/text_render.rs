//! Text handling: route-number parsing, markdown rendering, previews,
//! descriptions, session tokens, and the old credential scheme.

use base64::Engine as _;
use sha2::Digest as _;

use mogger::article::{preview_of_rendered, Article};
use mogger::store::Store;
use mogger::text::parse_i32;
use mogger::user::{Group, Login, Permission, Session, User};

fn article_with(content: &str) -> Article {
    Article {
        id: 1,
        title: String::from("t"),
        author: String::from("a"),
        url: String::from("t"),
        content: String::from(content),
        date: 0,
        visible: true,
    }
}

/// Route ids parse like the platform's 32-bit numbers: optional sign, only
/// digits, in range.
#[test]
fn parse_route_numbers() {
    assert_eq!(parse_i32("0"), Some(0));
    assert_eq!(parse_i32("123"), Some(123));
    assert_eq!(parse_i32("-42"), Some(-42));
    assert_eq!(parse_i32("+7"), Some(7));
    assert_eq!(parse_i32("2147483647"), Some(2147483647));
    assert_eq!(parse_i32("2147483648"), None);
    assert_eq!(parse_i32("-2147483648"), Some(-2147483648));
    assert_eq!(parse_i32("-2147483649"), None);
    assert_eq!(parse_i32(""), None);
    assert_eq!(parse_i32("-"), None);
    assert_eq!(parse_i32("12a"), None);
    assert_eq!(parse_i32("first-post"), None);
    assert_eq!(parse_i32("99999999999999999999"), None);
}

/// Markdown turns into HTML — and reader comments have raw HTML escaped.
#[test]
fn markdown_renders() {
    let c = mogger::comment::Comment {
        id: 1,
        parent: None,
        article: 1,
        author: None,
        name: Some(String::from("guest")),
        content: String::from("**bold** <script>x</script>"),
        date: 0,
        visible: true,
    };
    let html = c.formatted();
    assert!(html.contains("<strong>bold</strong>"));
    assert!(!html.contains("<script>"));
}

/// A short rendering is previewed whole; a long one is cut before its third
/// paragraph, with an ellipsis appended.
#[test]
fn preview_cuts_long_renderings() {
    let short = article_with("just a line");
    assert_eq!(short.preview(), short.formatted());

    let long_paragraph = "words ".repeat(100);
    let body = format!("{}\n\nsecond\n\nthird\n\nfourth", long_paragraph);
    let long = article_with(&body);
    let rendered = long.formatted();
    assert!(rendered.len() >= 500);
    let preview = long.preview();
    assert!(preview.ends_with('\u{2026}'));
    assert!(preview.contains("second"));
    assert!(!preview.contains("third"));
}

/// The preview cut happens exactly before the third paragraph tag.
#[test]
fn preview_cut_is_exact() {
    let filler = "x".repeat(600);
    let rendered = format!("<p>{}</p>\n<p>b</p>\n<p>c</p>", filler);
    let preview = preview_of_rendered(rendered.clone());
    let expected: String = {
        let mut e = String::from(&rendered[..rendered.len() - "<p>c</p>".len()]);
        e.push('\u{2026}');
        e
    };
    assert_eq!(preview, expected);
}

/// The description is the longest prefix within the byte budget that does
/// not split a character.
#[test]
fn description_respects_boundaries() {
    let short = article_with("brief");
    assert_eq!(short.description(), "brief");

    let long = article_with(&"a".repeat(400));
    assert_eq!(long.description().len(), 160);

    // place a two-byte character across the 160-byte boundary
    let tricky_content = format!("{}é rest", "a".repeat(159));
    let tricky = article_with(&tricky_content);
    let d = tricky.description();
    assert_eq!(d.len(), 159);
    assert!(d.chars().all(|c| c == 'a'));
}

/// Session tokens are 32 characters of base64 over 24 fresh bytes, and two
/// of them differ.
#[test]
fn session_tokens() {
    let a = Session::new("ada");
    let b = Session::new("ada");
    assert_eq!(a.user, "ada");
    assert_eq!(a.id.len(), 32);
    assert_ne!(a.id, b.id);
}

/// An account carrying an old-scheme credential (bcrypt over the base64 of
/// a salted digest) still logs in, and is rehashed to the plain scheme on
/// the way.
#[test]
fn old_scheme_login_rehashes() {
    let password = "password-1";
    let salt: Vec<u8> = vec![1, 2, 3, 4];
    let digest = sha2::Sha256::new()
        .chain_update(password)
        .chain_update(&salt)
        .finalize();
    let encoded = base64::engine::general_purpose::STANDARD.encode(digest);
    let old_hash = bcrypt::hash(&encoded, 4).expect("test credential");

    let mut store = Store {
        articles: Vec::new(),
        comments: Vec::new(),
        users: vec![User {
            id: String::from("ada"),
            hash: old_hash,
            salt,
            name: String::from("Ada"),
            email: String::from("ada@example.org"),
            group: String::from("default"),
            rehash: true,
        }],
        groups: vec![Group::new(String::from("default"), vec![Permission::CreateComment])],
        sessions: Vec::new(),
    };

    let login = Login { user: String::from("ada"), password: String::from(password) };
    let session = login.login(&mut store).expect("no fault").expect("old credential matches");
    assert_eq!(session.user, "ada");
    // the credential was rewritten to the plain scheme
    assert_eq!(store.users[0].rehash, false);
    assert!(store.users[0].salt.is_empty());
    let again = Login { user: String::from("ada"), password: String::from(password) };
    assert!(matches!(again.login(&mut store), Ok(Some(_))));
}

/// An article is found by number or by pretty url.
#[test]
fn article_view_by_number_or_url() {
    let store = Store {
        articles: vec![article_with("body")],
        comments: Vec::new(),
        users: Vec::new(),
        groups: Vec::new(),
        sessions: Vec::new(),
    };
    assert_eq!(mogger::article::view(&store, "1").unwrap().id, 1);
    assert_eq!(mogger::article::view(&store, "t").unwrap().id, 1);
    assert!(mogger::article::view(&store, "2").is_err());
    assert!(mogger::article::view(&store, "nope").is_err());
}

//! Articles: their authorization gates, store operations and derived
//! presentation helpers.

use vstd::prelude::*;

use vstd::string::StringSliceAdditionalSpecFns;
use vstd::utf8::{encode_utf8, is_char_boundary};

use crate::error::Error;
use crate::markdown::{html_of, render_markdown};
use crate::seq_util::{find_first, lemma_find_first_step, lemma_take_all, lemma_take_filter_step};
use crate::store::{find_article, find_article_by_url, find_user, Store};
use crate::user::{spec_session_allowed, user_by_id, user_like, Group, Permission, Session, User};

verus! {

/// How many bytes a description may take.
pub const DESCRIPTION_LEN: usize = 160;

/// Renderings under this many characters are previewed whole.
pub const PREVIEW_LEN: usize = 500;

/// One article row.
#[derive(Debug)]
pub struct Article {
    /// The article's numeric id
    pub id: i64,
    /// The title of the article
    pub title: String,
    /// The article's author
    pub author: String,
    /// The pretty url of the article
    pub url: String,
    /// The article's content/body
    pub content: String,
    /// The time of publishing, in seconds since the epoch
    pub date: i64,
    /// Whether the article has been published
    pub visible: bool,
}

/// Fields of an article yet to be inserted.
#[derive(Debug)]
pub struct NewArticle {
    pub title: String,
    pub url: String,
    pub content: String,
    pub author: String,
    pub visible: bool,
}

/// Fields an edit may change.
#[derive(Debug)]
pub struct ArticleChanges {
    pub title: String,
    pub url: String,
    pub content: String,
    pub visible: bool,
}

/// Whether the actor behind `session` may edit the article `a`: either a
/// blanket permission for foreign articles, or the narrower own-article
/// permission combined with authorship; no session means no.
pub open spec fn spec_article_editable(
    users: Seq<User>,
    groups: Seq<Group>,
    a: Article,
    session: Option<Session>,
) -> Result<bool, Error> {
    match session {
        None => Ok(false),
        Some(s) => match spec_session_allowed(users, groups, s, Permission::EditForeignArticle) {
            Err(e) => Err(e),
            Ok(true) => Ok(true),
            Ok(false) => match spec_session_allowed(users, groups, s, Permission::EditArticle) {
                Err(e) => Err(e),
                Ok(b) => Ok(b && a.author@ == s.user@),
            },
        },
    }
}

/// Whether the actor may see the article `a`: published articles are
/// public, drafts show only to whoever could edit them.
pub open spec fn spec_article_viewable(
    users: Seq<User>,
    groups: Seq<Group>,
    a: Article,
    session: Option<Session>,
) -> Result<bool, Error> {
    if a.visible {
        Ok(true)
    } else {
        spec_article_editable(users, groups, a, session)
    }
}

/// The largest byte position at or below `k` that falls on a character
/// boundary of `bytes`.
pub open spec fn boundary_at_or_below(bytes: Seq<u8>, k: int) -> int
    decreases k,
{
    if k <= 0 {
        0
    } else if is_char_boundary(bytes, k) {
        k
    } else {
        boundary_at_or_below(bytes, k - 1)
    }
}

/// Whether a paragraph tag starts at position `i` of the rendering.
pub open spec fn p_tag_at(s: Seq<char>, i: int) -> bool {
    &&& i + 3 <= s.len()
    &&& s[i] == '<'
    &&& s[i + 1] == 'p'
    &&& s[i + 2] == '>'
}

/// The position of the paragraph tag `k` tags after the one at or after
/// `from` (disjoint matches, as a substring scan yields them), or the end
/// of the rendering when there are not that many.
pub open spec fn nth_p_tag(s: Seq<char>, from: int, k: nat) -> int
    decreases s.len() - from, k,
{
    if from < 0 || from + 3 > s.len() {
        s.len() as int
    } else if p_tag_at(s, from) {
        if k == 0 {
            from
        } else {
            nth_p_tag(s, from + 3, (k - 1) as nat)
        }
    } else {
        nth_p_tag(s, from + 1, k)
    }
}

/// What a preview shows of a rendering: all of it when it is short, else
/// everything before the third paragraph with an ellipsis appended.
pub open spec fn preview_of(rendered: Seq<char>) -> Seq<char> {
    if rendered.len() < PREVIEW_LEN {
        rendered
    } else {
        rendered.subrange(0, nth_p_tag(rendered, 0, 2)).push('\u{2026}')
    }
}

impl Article {
    /// An exact copy; spelled out so that verified callers know the copy
    /// equals the original.
    pub fn duplicate(&self) -> (r: Article)
        ensures
            r == *self,
    {
        Article {
            id: self.id,
            title: self.title.clone(),
            author: self.author.clone(),
            url: self.url.clone(),
            content: self.content.clone(),
            date: self.date,
            visible: self.visible,
        }
    }

    /// Checks if the given session is authorized to view this article.
    /// Permission is granted if the article is marked visible or the user
    /// has editing rights.
    pub fn viewable(&self, session: Option<&Session>, store: &Store) -> (r: Result<bool, Error>)
        ensures
            r == spec_article_viewable(
                store.users@,
                store.groups@,
                *self,
                match session {
                    Some(s) => Some(*s),
                    None => None,
                },
            ),
    {
        if self.visible {
            Ok(true)
        } else {
            self.editable(session, store)
        }
    }

    /// Checks if the given session has permission to edit this article:
    /// either the blanket foreign-article permission, or the own-article
    /// permission together with authorship.
    pub fn editable(&self, session: Option<&Session>, store: &Store) -> (r: Result<bool, Error>)
        ensures
            r == spec_article_editable(
                store.users@,
                store.groups@,
                *self,
                match session {
                    Some(s) => Some(*s),
                    None => None,
                },
            ),
    {
        let s = match session {
            None => {
                return Ok(false);
            },
            Some(s) => s,
        };
        match s.allowed(Permission::EditForeignArticle, store) {
            Err(e) => Err(e),
            Ok(true) => Ok(true),
            Ok(false) => match s.allowed(Permission::EditArticle, store) {
                Err(e) => Err(e),
                Ok(b) => Ok(b && self.author.as_str().eq(s.user.as_str())),
            },
        }
    }

    /// Get the user who submitted this article.
    pub fn user(&self, store: &Store) -> (r: Result<User, Error>)
        ensures
            match find_user(store.users@, self.author@) {
                Some(u) => r matches Ok(ru) && user_like(ru, u),
                None => r == Err::<User, Error>(Error::NotFound),
            },
    {
        match user_by_id(&store.users, self.author.as_str()) {
            Some(u) => Ok(u.duplicate()),
            None => Err(Error::NotFound),
        }
    }

    /// Return the marked up version of the article's body.
    pub fn formatted(&self) -> (r: String)
        ensures
            r@ == html_of(self.content@, false),
    {
        render_markdown(self.content.as_str(), false)
    }

    /// Get a short slice of the article's contents: the longest prefix that
    /// fits the description length without splitting a character.
    pub fn description(&self) -> (r: &str)
        ensures
            r.spec_bytes() == encode_utf8(self.content@).subrange(
                0,
                boundary_at_or_below(encode_utf8(self.content@), DESCRIPTION_LEN as int),
            ),
    {
        broadcast use vstd::utf8::encode_utf8_valid_utf8;

        let content = self.content.as_str();
        let ghost bytes = content.spec_bytes();
        let mut end: usize = DESCRIPTION_LEN;
        #[verifier::loop_isolation(false)]
        while !content.is_char_boundary(end)
            invariant
                0 <= end <= DESCRIPTION_LEN,
                boundary_at_or_below(bytes, DESCRIPTION_LEN as int) == boundary_at_or_below(
                    bytes,
                    end as int,
                ),
            decreases end,
        {
            end -= 1;
        }
        let (prefix, _) = content.split_at(end);
        proof {
            assert(boundary_at_or_below(bytes, end as int) == end);
        }
        prefix
    }

    /// Used when displaying a preview of the article's contents in a list
    /// of articles: short renderings whole, long ones cut before their
    /// third paragraph.
    pub fn preview(&self) -> (r: String)
        ensures
            r@ == preview_of(html_of(self.content@, false)),
    {
        let rendered = self.formatted();
        preview_of_rendered(rendered)
    }
}

/// Cut a rendering down to preview size. Exposed on its own so the cutting
/// rule can be exercised on arbitrary renderings.
#[verifier::loop_isolation(false)]
pub fn preview_of_rendered(rendered: String) -> (r: String)
    ensures
        r@ == preview_of(rendered@),
{
    let s = rendered.as_str();
    let n = s.unicode_len();
    if n < PREVIEW_LEN {
        return rendered;
    }
    // Get index of third paragraph tag
    let mut i: usize = 0;
    let mut remaining: usize = 2;
    let mut cut: usize = n;
    let mut found = false;
    while !found && i < n && n - i >= 3
        invariant
            0 <= i <= n,
            n == rendered@.len(),
            !found ==> cut == n,
            0 <= remaining <= 2,
            found ==> cut == nth_p_tag(rendered@, 0, 2) && cut + 3 <= n,
            !found ==> nth_p_tag(rendered@, 0, 2) == nth_p_tag(
                rendered@,
                i as int,
                remaining as nat,
            ),
        decreases n - i, (if found {
            0int
        } else {
            1int
        }),
    {
        let tag = s.get_char(i) == '<' && s.get_char(i + 1) == 'p' && s.get_char(i + 2) == '>';
        if tag {
            if remaining == 0 {
                cut = i;
                found = true;
            } else {
                remaining -= 1;
                i += 3;
            }
        } else {
            i += 1;
        }
    }
    proof {
        if !found {
            assert(nth_p_tag(rendered@, i as int, remaining as nat) == rendered@.len());
        }
    }
    proof {
        assert(cut <= n);
    }
    let prefix = s.substring_char(0, cut);
    let mut out = prefix.to_owned();
    out.append("\u{2026}");
    proof {
        reveal_strlit("\u{2026}");
        assert(out@ =~= rendered@.subrange(0, nth_p_tag(rendered@, 0, 2)).push('\u{2026}'));
    }
    out
}

/// Characters that aren't allowed in article urls.
pub open spec fn illegal_url_char(c: char) -> bool {
    ||| c == '^'
    ||| c == '"'
    ||| c == '&'
    ||| c == ','
    ||| c == '@'
    ||| c == '#'
    ||| c == '$'
    ||| c == '%'
    ||| c == '+'
    ||| c == '*'
    ||| c == ':'
    ||| c == '?'
    ||| c == ';'
    ||| c == '<'
    ||| c == '>'
    ||| c == '['
    ||| c == ']'
    ||| c == '`'
    ||| c == '{'
    ||| c == '}'
}

/// An article url must avoid every illegal character.
pub open spec fn valid_url(s: Seq<char>) -> bool {
    forall|i: int| 0 <= i < s.len() ==> !illegal_url_char(#[trigger] s[i])
}

/// Check every character of a candidate article url.
#[verifier::loop_isolation(false)]
fn url_ok(url: &str) -> (r: bool)
    ensures
        r == valid_url(url@),
{
    let n = url.unicode_len();
    let mut i: usize = 0;
    while i < n
        invariant
            0 <= i <= n,
            n == url@.len(),
            forall|j: int| 0 <= j < i ==> !illegal_url_char(#[trigger] url@[j]),
        decreases n - i,
    {
        let c = url.get_char(i);
        let bad = c == '^' || c == '"' || c == '&' || c == ',' || c == '@' || c == '#' || c == '$'
            || c == '%' || c == '+' || c == '*' || c == ':' || c == '?' || c == ';' || c == '<'
            || c == '>' || c == '[' || c == ']' || c == '`' || c == '{' || c == '}';
        if bad {
            return false;
        }
        i += 1;
    }
    true
}

/// The first article row carrying `id`, if any.
#[verifier::loop_isolation(false)]
pub(crate) fn article_by_id<'a>(articles: &'a Vec<Article>, id: i64) -> (r: Option<&'a Article>)
    ensures
        match r {
            Some(a) => find_article(articles@, id) == Some(*a),
            None => find_article(articles@, id) is None,
        },
{
    let ghost p = (|a: Article| a.id == id);
    proof {
        assert(articles@.skip(0) =~= articles@);
    }
    let mut i: usize = 0;
    while i < articles.len()
        invariant
            0 <= i <= articles@.len(),
            find_first(articles@, p) == find_first(articles@.skip(i as int), p),
        decreases articles@.len() - i,
    {
        proof {
            lemma_find_first_step(articles@, p, i as int);
        }
        if articles[i].id == id {
            return Some(&articles[i]);
        }
        i += 1;
    }
    proof {
        assert(articles@.skip(i as int).len() == 0);
    }
    None
}

/// The first article row carrying `url`, if any.
#[verifier::loop_isolation(false)]
fn article_by_url<'a>(articles: &'a Vec<Article>, url: &str) -> (r: Option<&'a Article>)
    ensures
        match r {
            Some(a) => find_article_by_url(articles@, url@) == Some(*a),
            None => find_article_by_url(articles@, url@) is None,
        },
{
    let ghost p = (|a: Article| a.url@ == url@);
    proof {
        assert(articles@.skip(0) =~= articles@);
    }
    let mut i: usize = 0;
    while i < articles.len()
        invariant
            0 <= i <= articles@.len(),
            find_first(articles@, p) == find_first(articles@.skip(i as int), p),
        decreases articles@.len() - i,
    {
        proof {
            lemma_find_first_step(articles@, p, i as int);
        }
        if articles[i].url.as_str().eq(url) {
            return Some(&articles[i]);
        }
        i += 1;
    }
    proof {
        assert(articles@.skip(i as int).len() == 0);
    }
    None
}

/// Look the id of the article at `url` up.
pub fn id_from_url(store: &Store, url: &str) -> (r: Result<i64, Error>)
    ensures
        match find_article_by_url(store.articles@, url@) {
            Some(a) => r == Ok::<i64, Error>(a.id),
            None => r == Err::<i64, Error>(Error::NotFound),
        },
{
    match article_by_url(&store.articles, url) {
        Some(a) => Ok(a.id),
        None => Err(Error::NotFound),
    }
}

/// How many rows of `s` carry `id`.
pub open spec fn count_articles_with_id(s: Seq<Article>, id: i64) -> int {
    s.filter(|a: Article| a.id == id).len() as int
}

/// Fetch one article: a numeric name is an id, any other name a pretty
/// url.
pub fn view(store: &Store, name: &str) -> (r: Result<Article, Error>)
    ensures
        match crate::text::spec_parse_i32(name@) {
            Some(v) => match find_article(store.articles@, v as i64) {
                Some(a) => r == Ok::<Article, Error>(a),
                None => r == Err::<Article, Error>(Error::NotFound),
            },
            None => match find_article_by_url(store.articles@, name@) {
                Some(a) => r == Ok::<Article, Error>(a),
                None => r == Err::<Article, Error>(Error::NotFound),
            },
        },
{
    let found = match crate::text::parse_i32(name) {
        Some(id) => article_by_id(&store.articles, id as i64),
        None => article_by_url(&store.articles, name),
    };
    match found {
        Some(a) => Ok(a.duplicate()),
        None => Err(Error::NotFound),
    }
}

/// Newest first.
pub open spec fn sorted_by_date_desc(s: Seq<Article>) -> bool {
    forall|i: int, j: int| 0 <= i <= j < s.len() ==> s[i].date >= s[j].date
}

/// Every article, newest first.
#[verifier::loop_isolation(false)]
pub fn list(store: &Store) -> (r: Vec<Article>)
    ensures
        sorted_by_date_desc(r@),
        r@.to_multiset() == store.articles@.to_multiset(),
{
    broadcast use vstd::seq_lib::group_to_multiset_ensures;
    broadcast use vstd::seq_lib::to_multiset_insert;

    let mut out: Vec<Article> = Vec::new();
    let mut i: usize = 0;
    proof {
        assert(store.articles@.take(0) =~= Seq::<Article>::empty());
        assert(Seq::<Article>::empty().to_multiset() =~= out@.to_multiset());
    }
    while i < store.articles.len()
        invariant
            0 <= i <= store.articles@.len(),
            sorted_by_date_desc(out@),
            out@.to_multiset() == store.articles@.take(i as int).to_multiset(),
        decreases store.articles@.len() - i,
    {
        let a = store.articles[i].duplicate();
        let mut pos: usize = 0;
        while pos < out.len() && out[pos].date >= a.date
            invariant
                0 <= pos <= out@.len(),
                forall|k: int| 0 <= k < pos ==> out@[k].date >= a.date,
            decreases out@.len() - pos,
        {
            pos += 1;
        }
        let ghost before = out@;
        out.insert(pos, a);
        proof {
            assert(store.articles@.take(i as int + 1).drop_last() =~= store.articles@.take(
                i as int,
            ));
            assert(store.articles@.take(i as int + 1) =~= store.articles@.take(i as int).push(
                store.articles@[i as int],
            ));
            assert(out@.to_multiset() == store.articles@.take(i as int + 1).to_multiset());
            assert forall|x: int, y: int| 0 <= x <= y < out@.len() implies out@[x].date
                >= out@[y].date by {
                assert(pos < before.len() ==> before[pos as int].date < a.date);
            }
        }
        i += 1;
    }
    proof {
        assert(store.articles@.take(store.articles@.len() as int) =~= store.articles@);
    }
    out
}

/// The greatest article id in `s`, or zero for an empty table.
pub open spec fn max_article_id(s: Seq<Article>) -> int
    decreases s.len(),
{
    if s.len() == 0 {
        0
    } else {
        let rest = max_article_id(s.drop_last());
        if s.last().id > rest {
            s.last().id as int
        } else {
            rest
        }
    }
}

proof fn lemma_max_article_id_bounds(s: Seq<Article>)
    ensures
        0 <= max_article_id(s),
        forall|i: int| 0 <= i < s.len() ==> s[i].id <= max_article_id(s),
    decreases s.len(),
{
    if s.len() > 0 {
        lemma_max_article_id_bounds(s.drop_last());
        assert forall|i: int| 0 <= i < s.len() implies s[i].id <= max_article_id(s) by {
            if i < s.len() - 1 {
                assert(s.drop_last()[i] == s[i]);
            }
        }
    }
}

/// Insert a new article, refusing urls with illegal characters; the store
/// assigns the next free id and stamps the given submission time.
#[verifier::loop_isolation(false)]
pub fn submit(store: &mut Store, article: &NewArticle, now: i64) -> (r: Result<usize, Error>)
    requires
        max_article_id(old(store).articles@) < i64::MAX,
    ensures
        match r {
            Err(e) => e == Error::UrlInvalid && !valid_url(article.url@) && *final(store) == *old(
                store,
            ),
            Ok(n) => {
                let na = final(store).articles@.last();
                &&& valid_url(article.url@)
                &&& n == 1
                &&& final(store).articles@ == old(store).articles@.push(na)
                &&& na.id == max_article_id(old(store).articles@) + 1
                &&& na.title == article.title
                &&& na.author == article.author
                &&& na.url == article.url
                &&& na.content == article.content
                &&& na.date == now
                &&& na.visible == article.visible
                &&& final(store).comments == old(store).comments
                &&& final(store).users == old(store).users
                &&& final(store).groups == old(store).groups
                &&& final(store).sessions == old(store).sessions
            },
        },
        old(store).wf() ==> final(store).wf(),
{
    if !url_ok(article.url.as_str()) {
        return Err(Error::UrlInvalid);
    }
    let mut m: i64 = 0;
    let mut i: usize = 0;
    while i < store.articles.len()
        invariant
            0 <= i <= store.articles@.len(),
            m as int == max_article_id(store.articles@.take(i as int)),
        decreases store.articles@.len() - i,
    {
        proof {
            assert(store.articles@.take(i as int + 1).drop_last() =~= store.articles@.take(
                i as int,
            ));
            assert(store.articles@.take(i as int + 1).last() == store.articles@[i as int]);
        }
        if store.articles[i].id > m {
            m = store.articles[i].id;
        }
        i += 1;
    }
    proof {
        lemma_take_all(store.articles@);
        lemma_max_article_id_bounds(store.articles@);
    }
    let na = Article {
        id: m + 1,
        title: article.title.clone(),
        author: article.author.clone(),
        url: article.url.clone(),
        content: article.content.clone(),
        date: now,
        visible: article.visible,
    };
    store.articles.push(na);
    Ok(1)
}

/// Apply an edit to the article with the given id; returns how many rows
/// changed.
pub fn edit(store: &mut Store, id: i64, changes: &ArticleChanges) -> (r: usize)
    ensures
        final(store).articles@.len() == old(store).articles@.len(),
        forall|j: int|
            0 <= j < old(store).articles@.len() ==> final(store).articles@[j] == (if old(
                store,
            ).articles@[j].id == id {
                Article {
                    title: changes.title,
                    url: changes.url,
                    content: changes.content,
                    visible: changes.visible,
                    ..old(store).articles@[j]
                }
            } else {
                old(store).articles@[j]
            }),
        r as int == count_articles_with_id(old(store).articles@, id),
        final(store).comments == old(store).comments,
        final(store).users == old(store).users,
        final(store).groups == old(store).groups,
        final(store).sessions == old(store).sessions,
        old(store).wf() ==> final(store).wf(),
{
    let ghost p = (|a: Article| a.id == id);
    let mut rows: Vec<Article> = Vec::new();
    let mut n: usize = 0;
    let mut i: usize = 0;
    #[verifier::loop_isolation(false)]
    while i < store.articles.len()
        invariant
            0 <= i <= store.articles@.len(),
            rows@.len() == i,
            n as int == store.articles@.take(i as int).filter(p).len(),
            forall|j: int|
                0 <= j < i ==> rows@[j] == (if store.articles@[j].id == id {
                    Article {
                        title: changes.title,
                        url: changes.url,
                        content: changes.content,
                        visible: changes.visible,
                        ..store.articles@[j]
                    }
                } else {
                    store.articles@[j]
                }),
        decreases store.articles@.len() - i,
    {
        proof {
            lemma_take_filter_step(store.articles@, p, i as int);
            store.articles@.take(i as int).lemma_filter_len(p);
        }
        let a = &store.articles[i];
        if a.id == id {
            rows.push(
                Article {
                    id: a.id,
                    title: changes.title.clone(),
                    author: a.author.clone(),
                    url: changes.url.clone(),
                    content: changes.content.clone(),
                    date: a.date,
                    visible: changes.visible,
                },
            );
            n += 1;
        } else {
            rows.push(a.duplicate());
        }
        i += 1;
    }
    proof {
        lemma_take_all(store.articles@);
    }
    store.articles = rows;
    proof {
        if old(store).wf() {
            assert forall|a: int, b: int|
                0 <= a < b < store.articles@.len() implies store.articles@[a].id
                != store.articles@[b].id by {
                assert(store.articles@[a].id == old(store).articles@[a].id);
                assert(store.articles@[b].id == old(store).articles@[b].id);
            }
        }
    }
    n
}

/// Remove the article with the given id; returns how many rows went.
#[verifier::loop_isolation(false)]
pub fn delete(store: &mut Store, id: i64) -> (r: usize)
    ensures
        final(store).articles@ == old(store).articles@.filter(|a: Article| a.id != id),
        r as int == count_articles_with_id(old(store).articles@, id),
        final(store).comments == old(store).comments,
        final(store).users == old(store).users,
        final(store).groups == old(store).groups,
        final(store).sessions == old(store).sessions,
        old(store).wf() ==> final(store).wf(),
{
    let ghost keep = (|a: Article| a.id != id);
    let ghost hit = (|a: Article| a.id == id);
    let mut rows: Vec<Article> = Vec::new();
    let mut n: usize = 0;
    let mut i: usize = 0;
    while i < store.articles.len()
        invariant
            0 <= i <= store.articles@.len(),
            rows@ == store.articles@.take(i as int).filter(keep),
            n as int == store.articles@.take(i as int).filter(hit).len(),
        decreases store.articles@.len() - i,
    {
        proof {
            lemma_take_filter_step(store.articles@, keep, i as int);
            lemma_take_filter_step(store.articles@, hit, i as int);
            store.articles@.take(i as int).lemma_filter_len(hit);
        }
        let a = &store.articles[i];
        if a.id == id {
            n += 1;
        } else {
            rows.push(a.duplicate());
        }
        i += 1;
    }
    proof {
        lemma_take_all(store.articles@);
    }
    store.articles = rows;
    proof {
        if old(store).wf() {
            crate::seq_util::lemma_filter_unique_by(
                old(store).articles@,
                keep,
                |a: Article| a.id,
            );
        }
    }
    n
}

/// How many comments an article carries.
#[verifier::loop_isolation(false)]
pub fn comment_count(store: &Store, id: i64) -> (r: i64)
    requires
        store.comments@.len() <= i64::MAX,
    ensures
        r as int == crate::comment::article_comments(store.comments@, id).len(),
{
    let ghost p = (|c: crate::comment::Comment| c.article == id);
    let mut n: i64 = 0;
    let mut i: usize = 0;
    while i < store.comments.len()
        invariant
            0 <= i <= store.comments@.len(),
            n as int == store.comments@.take(i as int).filter(p).len(),
        decreases store.comments@.len() - i,
    {
        proof {
            lemma_take_filter_step(store.comments@, p, i as int);
            store.comments@.take(i as int).lemma_filter_len(p);
        }
        if store.comments[i].article == id {
            n += 1;
        }
        i += 1;
    }
    proof {
        lemma_take_all(store.comments@);
    }
    n
}

/// Fetch the author column of one article row.
pub fn author(store: &Store, id: i64) -> (r: Result<String, Error>)
    ensures
        match find_article(store.articles@, id) {
            Some(a) => r == Ok::<String, Error>(a.author),
            None => r == Err::<String, Error>(Error::NotFound),
        },
{
    match article_by_id(&store.articles, id) {
        Some(a) => Ok(a.author.clone()),
        None => Err(Error::NotFound),
    }
}

} // verus!

//! Comments and the comment tree builder.
//!
//! A flat list of comment rows (as the store hands them out) is rebuilt into
//! a forest: the roots are the comments without a parent, and every node's
//! children are the comments whose `parent` field names that node's id, in
//! flat-list order.

use vstd::prelude::*;

use crate::error::Error;
use crate::seq_util::{find_first, lemma_filter_unique_by, lemma_find_first_step,
    lemma_take_all, lemma_take_filter_step, unique_by};
use crate::store::{find_comment, find_user, Store};
use crate::user::{spec_session_allowed, user_by_id, Group, Permission, Session, User};

verus! {

/// Whether the actor behind `session` may edit the comment `c`: either a
/// blanket permission for foreign comments, or the narrower own-comment
/// permission combined with authorship. A guest comment has no author an
/// actor could be, so only the blanket permission reaches it; no session
/// means no.
pub open spec fn spec_comment_editable(
    users: Seq<User>,
    groups: Seq<Group>,
    c: Comment,
    session: Option<Session>,
) -> Result<bool, Error> {
    match session {
        None => Ok(false),
        Some(s) => match spec_session_allowed(users, groups, s, Permission::EditForeignComment) {
            Err(e) => Err(e),
            Ok(true) => Ok(true),
            Ok(false) => match spec_session_allowed(users, groups, s, Permission::EditComment) {
                Err(e) => Err(e),
                Ok(b) => Ok(b && (c.author matches Some(a) && a@ == s.user@)),
            },
        },
    }
}

/// Whether the actor may see the comment `c`: everyone sees a visible
/// comment; a hidden one is still shown to whoever could edit it.
pub open spec fn spec_comment_viewable(
    users: Seq<User>,
    groups: Seq<Group>,
    c: Comment,
    session: Option<Session>,
) -> Result<bool, Error> {
    if c.visible {
        Ok(true)
    } else {
        spec_comment_editable(users, groups, c, session)
    }
}

/// One comment row, as stored for an article.
#[derive(Debug)]
pub struct Comment {
    /// The unique id of this comment
    pub id: i64,
    /// The id of its parent, if any
    pub parent: Option<i64>,
    /// The id of the article this comment belongs to
    pub article: i64,
    /// The user who submitted the comment
    pub author: Option<String>,
    /// The name to display for guest comments
    pub name: Option<String>,
    /// The comment's content
    pub content: String,
    /// The time of the comment's submission, in seconds since the epoch
    pub date: i64,
    /// Whether to display the comment
    pub visible: bool,
}

impl Comment {
    /// An exact copy; spelled out so that verified callers know the copy
    /// equals the original.
    pub fn duplicate(&self) -> (r: Comment)
        ensures
            r == *self,
    {
        Comment {
            id: self.id,
            parent: self.parent,
            article: self.article,
            author: match &self.author {
                Some(a) => Some(a.clone()),
                None => None,
            },
            name: match &self.name {
                Some(n) => Some(n.clone()),
                None => None,
            },
            content: self.content.clone(),
            date: self.date,
            visible: self.visible,
        }
    }
}

/// Duplicate an optional string, keeping its value.
pub(crate) fn clone_opt_string(o: &Option<String>) -> (r: Option<String>)
    ensures
        r == *o,
{
    match o {
        Some(s) => Some(s.clone()),
        None => None,
    }
}

/// Fields of a comment yet to be inserted; the store assigns id and date.
#[derive(Debug)]
pub struct NewComment {
    pub parent: Option<i64>,
    pub article: i64,
    pub author: Option<String>,
    pub name: Option<String>,
    pub content: String,
    pub visible: bool,
}

/// Fields an edit may change.
#[derive(Debug)]
pub struct CommentChanges {
    pub name: Option<String>,
    pub content: String,
    pub visible: bool,
}

/// The comment `c` with `ch` applied.
pub open spec fn with_changes(c: Comment, ch: CommentChanges) -> Comment {
    Comment { name: ch.name, content: ch.content, visible: ch.visible, ..c }
}

/// The comment table after an edit of the comment with `id`: its editable
/// fields follow the form, every other row stands as it was.
pub open spec fn changes_applied(
    pre: Seq<Comment>,
    post: Seq<Comment>,
    id: i64,
    ch: CommentChanges,
) -> bool {
    &&& post.len() == pre.len()
    &&& forall|j: int|
        0 <= j < pre.len() ==> post[j] == (if pre[j].id == id {
            with_changes(pre[j], ch)
        } else {
            pre[j]
        })
}

/// The comment table after the visibility flag of the comment with `id` was
/// set: only that flag moved, every other row stands as it was.
pub open spec fn visibility_set(
    pre: Seq<Comment>,
    post: Seq<Comment>,
    id: i64,
    visible: bool,
) -> bool {
    &&& post.len() == pre.len()
    &&& forall|j: int|
        0 <= j < pre.len() ==> post[j] == (if pre[j].id == id {
            Comment { visible, ..pre[j] }
        } else {
            pre[j]
        })
}

/// The comment table without the rows carrying `id`.
pub open spec fn without_id(s: Seq<Comment>, id: i64) -> Seq<Comment> {
    s.filter(|c: Comment| c.id != id)
}

/// A tree of comments
#[derive(Debug)]
pub struct Node {
    pub comment: Comment,
    pub children: Vec<Node>,
}

/// The comments of `flat` that are replies to the comment with id `id`,
/// in flat-list order.
pub open spec fn kids_of(flat: Seq<Comment>, id: i64) -> Seq<Comment> {
    flat.filter(|c: Comment| c.parent == Some(id))
}

/// The comments of `flat` that have no parent, in flat-list order.
pub open spec fn roots_of(flat: Seq<Comment>) -> Seq<Comment> {
    flat.filter(|c: Comment| c.parent is None)
}

/// `n` is the tree grown from comment `c` over the flat list `flat`, with
/// child expansion cut off below depth `fuel`.
pub open spec fn matches_subtree(flat: Seq<Comment>, c: Comment, fuel: nat, n: Node) -> bool
    decreases fuel,
{
    &&& n.comment == c
    &&& if fuel == 0 {
        n.children@.len() == 0
    } else {
        &&& n.children@.map_values(|ch: Node| ch.comment) == kids_of(flat, c.id)
        &&& forall|i: int|
            0 <= i < n.children@.len() ==> matches_subtree(
                flat,
                n.children@[i].comment,
                (fuel - 1) as nat,
                #[trigger] n.children@[i],
            )
    }
}

/// `n` is fully expanded over `flat`: its children are exactly the replies
/// to its comment, and so on all the way down.
pub open spec fn full(flat: Seq<Comment>, n: Node) -> bool
    decreases n,
{
    &&& n.children@.map_values(|ch: Node| ch.comment) == kids_of(flat, n.comment.id)
    &&& forall|i: int| 0 <= i < n.children@.len() ==> full(flat, #[trigger] n.children@[i])
}

/// How many nodes anywhere in the forest carry comment id `id`.
pub open spec fn occ_forest(ns: Seq<Node>, id: i64) -> nat
    decreases ns,
{
    if ns.len() == 0 {
        0
    } else {
        occ_node(ns[0], id) + occ_forest(ns.drop_first(), id)
    }
}

/// How many nodes of the tree `n` carry comment id `id`.
pub open spec fn occ_node(n: Node, id: i64) -> nat
    decreases n,
{
    (if n.comment.id == id {
        1nat
    } else {
        0nat
    }) + occ_forest(n.children@, id)
}

/// The total number of nodes in the forest.
pub open spec fn node_count(ns: Seq<Node>) -> nat
    decreases ns,
{
    if ns.len() == 0 {
        0
    } else {
        node_count_node(ns[0]) + node_count(ns.drop_first())
    }
}

/// The total number of nodes in the tree `n`.
pub open spec fn node_count_node(n: Node) -> nat
    decreases n,
{
    1 + node_count(n.children@)
}

/// How many top-level nodes of `ns` carry comment id `id`.
pub open spec fn cnt_top(ns: Seq<Node>, id: i64) -> nat
    decreases ns,
{
    if ns.len() == 0 {
        0
    } else {
        (if ns[0].comment.id == id {
            1nat
        } else {
            0nat
        }) + cnt_top(ns.drop_first(), id)
    }
}

/// Every parent reference points at a comment standing earlier in the flat
/// list, as rows do when the store hands them out in insertion order and
/// every reply is younger than what it replies to.
pub open spec fn parents_precede(flat: Seq<Comment>) -> bool {
    forall|j: int|
        0 <= j < flat.len() && flat[j].parent is Some ==> exists|k: int|
            0 <= k < j && flat[k].id == flat[j].parent->0
}

/// `ns` is the forest grown over `flat`: one tree per root comment, in
/// flat-list order, each expanded deep enough to exhaust any reply chain
/// that `flat` can form.
pub open spec fn forest_matches(flat: Seq<Comment>, ns: Seq<Node>) -> bool {
    &&& ns.map_values(|n: Node| n.comment) == roots_of(flat)
    &&& forall|i: int|
        0 <= i < ns.len() ==> matches_subtree(flat, ns[i].comment, flat.len(), #[trigger] ns[i])
}

impl Comment {
    /// Checks if the given session is authorized to view this comment:
    /// visible comments are public, hidden ones show only to their editors.
    pub fn viewable(&self, session: Option<&Session>, store: &Store) -> (r: Result<bool, Error>)
        ensures
            r == spec_comment_viewable(
                store.users@,
                store.groups@,
                *self,
                match session {
                    Some(s) => Some(*s),
                    None => None,
                },
            ),
    {
        if self.visible {
            Ok(true)
        } else {
            self.editable(session, store)
        }
    }

    /// Checks if the given session has permission to edit this comment:
    /// either the blanket foreign-comment permission, or the own-comment
    /// permission together with authorship.
    pub fn editable(&self, session: Option<&Session>, store: &Store) -> (r: Result<bool, Error>)
        ensures
            r == spec_comment_editable(
                store.users@,
                store.groups@,
                *self,
                match session {
                    Some(s) => Some(*s),
                    None => None,
                },
            ),
    {
        let s = match session {
            None => {
                return Ok(false);
            },
            Some(s) => s,
        };
        match s.allowed(Permission::EditForeignComment, store) {
            Err(e) => Err(e),
            Ok(true) => Ok(true),
            Ok(false) => match s.allowed(Permission::EditComment, store) {
                Err(e) => Err(e),
                Ok(b) => {
                    let own = match &self.author {
                        Some(a) => a.as_str().eq(s.user.as_str()),
                        None => false,
                    };
                    Ok(b && own)
                },
            },
        }
    }

    /// Return the marked up version of the comment's content, with raw HTML
    /// escaped: comments come from readers.
    pub fn formatted(&self) -> (r: String)
        ensures
            r@ == crate::markdown::html_of(self.content@, true),
    {
        crate::markdown::render_markdown(self.content.as_str(), true)
    }

    /// Resolve the name to show for this comment: the guest name or
    /// anonymization sentinel when one is set, else the author's display
    /// name from the user table. A comment must carry one of the two.
    pub fn author(&self, store: &Store) -> (r: Result<String, Error>)
        requires
            self.name is Some || self.author is Some,
        ensures
            match self.name {
                Some(n) => r == Ok::<String, Error>(n),
                None => match find_user(store.users@, self.author->0@) {
                    Some(u) => r matches Ok(nm) && nm == u.name,
                    None => r == Err::<String, Error>(Error::NotFound),
                },
            },
    {
        if let Some(name) = &self.name {
            return Ok(name.clone());
        }
        let author = match &self.author {
            Some(a) => a,
            None => {
                return Err(Error::NotFound);
            },
        };
        match user_by_id(&store.users, author.as_str()) {
            Some(u) => Ok(u.name.clone()),
            None => Err(Error::NotFound),
        }
    }
}

impl Node {
    pub fn new(comment: Comment) -> (n: Node)
        ensures
            n.comment == comment,
            n.children@.len() == 0,
    {
        Node { comment, children: Vec::new() }
    }

    /// Get children from comment list and recursively populate them.
    pub fn populate(&mut self, list: &Vec<Comment>)
        ensures
            final(self).comment == old(self).comment,
            matches_subtree(list@, old(self).comment, list@.len() as nat, *final(self)),
    {
        let expanded = expand(list, self.comment.duplicate(), list.len());
        self.children = expanded.children;
        proof {
            if list@.len() > 0 {
                assert(final(self).children@.map_values(|ch: Node| ch.comment) == kids_of(
                    list@,
                    old(self).comment.id,
                ));
            }
        }
    }
}

/// The replies to comment `id`, in flat-list order.
#[verifier::loop_isolation(false)]
fn collect_kids(flat: &Vec<Comment>, id: i64) -> (kids: Vec<Comment>)
    ensures
        kids@ == kids_of(flat@, id),
{
    let ghost p = (|c: Comment| c.parent == Some(id));
    let mut kids: Vec<Comment> = Vec::new();
    let mut i: usize = 0;
    while i < flat.len()
        invariant
            0 <= i <= flat@.len(),
            kids@ == flat@.take(i as int).filter(p),
        decreases flat@.len() - i,
    {
        proof {
            lemma_take_filter_step(flat@, p, i as int);
        }
        let matched = match flat[i].parent {
            Some(q) => q == id,
            None => false,
        };
        if matched {
            kids.push(flat[i].duplicate());
        }
        i += 1;
    }
    proof {
        lemma_take_all(flat@);
    }
    kids
}

/// Grow the tree rooted at comment `c`, cutting expansion off below depth
/// `fuel`; a fuel of `flat.len()` outlasts every reply chain `flat` can form.
fn expand(flat: &Vec<Comment>, c: Comment, fuel: usize) -> (n: Node)
    ensures
        matches_subtree(flat@, c, fuel as nat, n),
    decreases fuel,
{
    if fuel == 0 {
        return Node { comment: c, children: Vec::new() };
    }
    let kids = collect_kids(flat, c.id);
    let mut children: Vec<Node> = Vec::new();
    let mut i: usize = 0;
    while i < kids.len()
        invariant
            0 <= i <= kids@.len(),
            fuel >= 1,
            kids@ == kids_of(flat@, c.id),
            children@.len() == i,
            forall|j: int|
                0 <= j < i ==> (#[trigger] children@[j]).comment == kids@[j]
                    && matches_subtree(flat@, kids@[j], (fuel - 1) as nat, children@[j]),
        decreases kids@.len() - i,
    {
        let child = expand(flat, kids[i].duplicate(), fuel - 1);
        children.push(child);
        i += 1;
    }
    proof {
        assert(children@.map_values(|ch: Node| ch.comment) =~= kids_of(flat@, c.id));
    }
    Node { comment: c, children }
}

/// Rebuild the comment forest of one article from its flat comment list:
/// the roots are the comments without a parent, each expanded recursively.
pub fn build_forest(flat: &Vec<Comment>) -> (forest: Vec<Node>)
    ensures
        forest_matches(flat@, forest@),
{
    let roots = collect_roots(flat);
    let mut forest: Vec<Node> = Vec::new();
    let mut i: usize = 0;
    while i < roots.len()
        invariant
            0 <= i <= roots@.len(),
            roots@ == roots_of(flat@),
            forest@.len() == i,
            forall|j: int|
                0 <= j < i ==> (#[trigger] forest@[j]).comment == roots@[j]
                    && matches_subtree(flat@, roots@[j], flat@.len(), forest@[j]),
        decreases roots@.len() - i,
    {
        let tree = expand(flat, roots[i].duplicate(), flat.len());
        forest.push(tree);
        i += 1;
    }
    proof {
        assert(forest@.map_values(|n: Node| n.comment) =~= roots_of(flat@));
    }
    forest
}

/// The comments belonging to one article, in table order.
pub open spec fn article_comments(s: Seq<Comment>, article: i64) -> Seq<Comment> {
    s.filter(|c: Comment| c.article == article)
}

/// How many rows of `s` carry `id`.
pub open spec fn count_with_id(s: Seq<Comment>, id: i64) -> int {
    s.filter(|c: Comment| c.id == id).len() as int
}

/// The greatest comment id in `s`, or zero for an empty table; the store
/// assigns `max + 1` to the next insertion.
pub open spec fn max_comment_id(s: Seq<Comment>) -> int
    decreases s.len(),
{
    if s.len() == 0 {
        0
    } else {
        let rest = max_comment_id(s.drop_last());
        if s.last().id > rest {
            s.last().id as int
        } else {
            rest
        }
    }
}

proof fn lemma_max_comment_id_bounds(s: Seq<Comment>)
    ensures
        0 <= max_comment_id(s),
        forall|i: int| 0 <= i < s.len() ==> s[i].id <= max_comment_id(s),
    decreases s.len(),
{
    if s.len() > 0 {
        lemma_max_comment_id_bounds(s.drop_last());
        assert forall|i: int| 0 <= i < s.len() implies s[i].id <= max_comment_id(s) by {
            if i < s.len() - 1 {
                assert(s.drop_last()[i] == s[i]);
            }
        }
    }
}

/// The comment the context walk ends on after climbing at most `k` parent
/// links of `c` within `flat`: the walk stops early at a comment without a
/// parent, or whose parent is missing from `flat`.
pub open spec fn ascend(flat: Seq<Comment>, c: Comment, k: nat) -> Comment
    decreases k,
{
    if k == 0 {
        c
    } else {
        match c.parent {
            None => c,
            Some(p) => match find_comment(flat, p) {
                None => c,
                Some(pc) => ascend(flat, pc, (k - 1) as nat),
            },
        }
    }
}

/// The ascent from `c` can go no further: `c` has no parent, or its parent
/// is not in the flat list.
pub open spec fn ascent_blocked(flat: Seq<Comment>, c: Comment) -> bool {
    c.parent is None || find_comment(flat, c.parent->0) is None
}

/// A comment whose parent cannot be climbed to ends every ascent at itself.
pub proof fn lemma_ascend_stuck(flat: Seq<Comment>, c: Comment, k: nat)
    requires
        ascent_blocked(flat, c),
    ensures
        ascend(flat, c, k) == c,
{
}

/// The first row of `comments` carrying `id`, if any.
#[verifier::loop_isolation(false)]
fn comment_by_id<'a>(comments: &'a Vec<Comment>, id: i64) -> (r: Option<&'a Comment>)
    ensures
        match r {
            Some(c) => find_comment(comments@, id) == Some(*c),
            None => find_comment(comments@, id) is None,
        },
{
    let ghost p = (|c: Comment| c.id == id);
    proof {
        assert(comments@.skip(0) =~= comments@);
    }
    let mut i: usize = 0;
    while i < comments.len()
        invariant
            0 <= i <= comments@.len(),
            find_first(comments@, p) == find_first(comments@.skip(i as int), p),
        decreases comments@.len() - i,
    {
        proof {
            lemma_find_first_step(comments@, p, i as int);
        }
        if comments[i].id == id {
            return Some(&comments[i]);
        }
        i += 1;
    }
    proof {
        assert(comments@.skip(i as int).len() == 0);
    }
    None
}

/// Get a linear list of an articles comments
#[verifier::loop_isolation(false)]
pub fn list_flat(store: &Store, article: i64) -> (r: Vec<Comment>)
    ensures
        r@ == article_comments(store.comments@, article),
{
    let ghost p = (|c: Comment| c.article == article);
    let mut rows: Vec<Comment> = Vec::new();
    let mut i: usize = 0;
    while i < store.comments.len()
        invariant
            0 <= i <= store.comments@.len(),
            rows@ == store.comments@.take(i as int).filter(p),
        decreases store.comments@.len() - i,
    {
        proof {
            lemma_take_filter_step(store.comments@, p, i as int);
        }
        if store.comments[i].article == article {
            rows.push(store.comments[i].duplicate());
        }
        i += 1;
    }
    proof {
        lemma_take_all(store.comments@);
    }
    rows
}

/// Get the comments of an article as a tree structure
pub fn list(store: &Store, article: i64) -> (r: Vec<Node>)
    ensures
        forest_matches(article_comments(store.comments@, article), r@),
{
    let flat = list_flat(store, article);
    build_forest(&flat)
}

/// Look one comment up, walk up to `context` parent links from it, and
/// return the tree rooted at the comment the walk ends on. The walk stops
/// early at a comment without a parent (or whose parent is gone); a missing
/// target yields `None`.
pub fn view(store: &Store, id: i64, context: u32) -> (r: Option<Node>)
    ensures
        match find_comment(store.comments@, id) {
            None => r is None,
            Some(c) => match r {
                Some(n) => {
                    let flat = article_comments(store.comments@, c.article);
                    &&& n.comment == ascend(flat, c, context as nat)
                    &&& matches_subtree(flat, n.comment, flat.len(), n)
                },
                None => false,
            },
        },
{
    let target = match comment_by_id(&store.comments, id) {
        Some(c) => c.duplicate(),
        None => {
            return None;
        },
    };
    let flat = list_flat(store, target.article);
    let ghost c0 = target;
    let mut cur = target;
    let mut i: u32 = 0;
    #[verifier::loop_isolation(false)]
    while i < context
        invariant
            0 <= i <= context,
            ascend(flat@, c0, context as nat) == ascend(flat@, cur, (context - i) as nat),
        decreases context - i,
    {
        let parent_id = match cur.parent {
            None => {
                proof {
                    lemma_ascend_stuck(flat@, cur, (context - i) as nat);
                }
                i = context;
                continue;
            },
            Some(p) => p,
        };
        match comment_by_id(&flat, parent_id) {
            Some(pc) => {
                cur = pc.duplicate();
                i += 1;
            },
            None => {
                proof {
                    lemma_ascend_stuck(flat@, cur, (context - i) as nat);
                }
                i = context;
            },
        }
    }
    let mut node = Node::new(cur);
    node.populate(&flat);
    Some(node)
}

/// Fetch one comment row by id.
pub fn view_single(store: &Store, id: i64) -> (r: Option<Comment>)
    ensures
        r == find_comment(store.comments@, id),
{
    match comment_by_id(&store.comments, id) {
        Some(c) => Some(c.duplicate()),
        None => None,
    }
}

/// Insert a new comment; the store assigns the next free id and stamps the
/// given submission time.
#[verifier::loop_isolation(false)]
pub fn submit(store: &mut Store, comment: NewComment, now: i64) -> (r: Comment)
    requires
        max_comment_id(old(store).comments@) < i64::MAX,
    ensures
        r == (Comment {
            id: (max_comment_id(old(store).comments@) + 1) as i64,
            parent: comment.parent,
            article: comment.article,
            author: comment.author,
            name: comment.name,
            content: comment.content,
            date: now,
            visible: comment.visible,
        }),
        final(store).comments@ == old(store).comments@.push(r),
        final(store).articles == old(store).articles,
        final(store).users == old(store).users,
        final(store).groups == old(store).groups,
        final(store).sessions == old(store).sessions,
        old(store).wf() ==> final(store).wf(),
{
    let mut m: i64 = 0;
    let mut i: usize = 0;
    while i < store.comments.len()
        invariant
            0 <= i <= store.comments@.len(),
            m as int == max_comment_id(store.comments@.take(i as int)),
        decreases store.comments@.len() - i,
    {
        proof {
            assert(store.comments@.take(i as int + 1).drop_last() =~= store.comments@.take(
                i as int,
            ));
            assert(store.comments@.take(i as int + 1).last() == store.comments@[i as int]);
        }
        if store.comments[i].id > m {
            m = store.comments[i].id;
        }
        i += 1;
    }
    proof {
        lemma_take_all(store.comments@);
        lemma_max_comment_id_bounds(store.comments@);
    }
    let inserted = Comment {
        id: m + 1,
        parent: comment.parent,
        article: comment.article,
        author: comment.author,
        name: comment.name,
        content: comment.content,
        date: now,
        visible: comment.visible,
    };
    let result = inserted.duplicate();
    store.comments.push(inserted);
    result
}

/// Apply an edit to the comment with the given id; returns how many rows
/// changed.
#[verifier::loop_isolation(false)]
pub fn edit(store: &mut Store, id: i64, changes: CommentChanges) -> (r: usize)
    ensures
        changes_applied(old(store).comments@, final(store).comments@, id, changes),
        r as int == count_with_id(old(store).comments@, id),
        final(store).articles == old(store).articles,
        final(store).users == old(store).users,
        final(store).groups == old(store).groups,
        final(store).sessions == old(store).sessions,
        old(store).wf() ==> final(store).wf(),
{
    let ghost p = (|c: Comment| c.id == id);
    let mut rows: Vec<Comment> = Vec::new();
    let mut n: usize = 0;
    let mut i: usize = 0;
    while i < store.comments.len()
        invariant
            0 <= i <= store.comments@.len(),
            rows@.len() == i,
            n as int == store.comments@.take(i as int).filter(p).len(),
            forall|j: int|
                0 <= j < i ==> rows@[j] == (if store.comments@[j].id == id {
                    with_changes(store.comments@[j], changes)
                } else {
                    store.comments@[j]
                }),
        decreases store.comments@.len() - i,
    {
        proof {
            lemma_take_filter_step(store.comments@, p, i as int);
            store.comments@.take(i as int).lemma_filter_len(p);
        }
        let c = &store.comments[i];
        if c.id == id {
            rows.push(
                Comment {
                    id: c.id,
                    parent: c.parent,
                    article: c.article,
                    author: clone_opt_string(&c.author),
                    name: clone_opt_string(&changes.name),
                    content: changes.content.clone(),
                    date: c.date,
                    visible: changes.visible,
                },
            );
            n += 1;
        } else {
            rows.push(c.duplicate());
        }
        i += 1;
    }
    proof {
        lemma_take_all(store.comments@);
    }
    store.comments = rows;
    proof {
        if old(store).wf() {
            assert forall|a: int, b: int|
                0 <= a < b < final(store).comments@.len() implies final(store).comments@[a].id
                != final(store).comments@[b].id by {
                assert(final(store).comments@[a].id == old(store).comments@[a].id);
                assert(final(store).comments@[b].id == old(store).comments@[b].id);
            }
        }
    }
    n
}

/// Soft-delete: hide the comment with the given id; returns how many rows
/// changed.
#[verifier::loop_isolation(false)]
pub fn delete(store: &mut Store, id: i64) -> (r: usize)
    ensures
        visibility_set(old(store).comments@, final(store).comments@, id, false),
        r as int == count_with_id(old(store).comments@, id),
        final(store).articles == old(store).articles,
        final(store).users == old(store).users,
        final(store).groups == old(store).groups,
        final(store).sessions == old(store).sessions,
        old(store).wf() ==> final(store).wf(),
{
    set_visible(store, id, false)
}

/// Undo a soft deletion: show the comment with the given id again; returns
/// how many rows changed.
#[verifier::loop_isolation(false)]
pub fn restore(store: &mut Store, id: i64) -> (r: usize)
    ensures
        visibility_set(old(store).comments@, final(store).comments@, id, true),
        r as int == count_with_id(old(store).comments@, id),
        final(store).articles == old(store).articles,
        final(store).users == old(store).users,
        final(store).groups == old(store).groups,
        final(store).sessions == old(store).sessions,
        old(store).wf() ==> final(store).wf(),
{
    set_visible(store, id, true)
}

/// Flip the visibility flag of the comment with the given id.
#[verifier::loop_isolation(false)]
fn set_visible(store: &mut Store, id: i64, visible: bool) -> (r: usize)
    ensures
        visibility_set(old(store).comments@, final(store).comments@, id, visible),
        r as int == count_with_id(old(store).comments@, id),
        final(store).articles == old(store).articles,
        final(store).users == old(store).users,
        final(store).groups == old(store).groups,
        final(store).sessions == old(store).sessions,
        old(store).wf() ==> final(store).wf(),
{
    let ghost p = (|c: Comment| c.id == id);
    let mut rows: Vec<Comment> = Vec::new();
    let mut n: usize = 0;
    let mut i: usize = 0;
    while i < store.comments.len()
        invariant
            0 <= i <= store.comments@.len(),
            rows@.len() == i,
            n as int == store.comments@.take(i as int).filter(p).len(),
            forall|j: int|
                0 <= j < i ==> rows@[j] == (if store.comments@[j].id == id {
                    Comment { visible, ..store.comments@[j] }
                } else {
                    store.comments@[j]
                }),
        decreases store.comments@.len() - i,
    {
        proof {
            lemma_take_filter_step(store.comments@, p, i as int);
            store.comments@.take(i as int).lemma_filter_len(p);
        }
        let c = &store.comments[i];
        let mut row = c.duplicate();
        if c.id == id {
            row.visible = visible;
            rows.push(row);
            n += 1;
        } else {
            rows.push(row);
        }
        i += 1;
    }
    proof {
        lemma_take_all(store.comments@);
    }
    store.comments = rows;
    proof {
        if old(store).wf() {
            assert forall|a: int, b: int|
                0 <= a < b < final(store).comments@.len() implies final(store).comments@[a].id
                != final(store).comments@[b].id by {
                assert(final(store).comments@[a].id == old(store).comments@[a].id);
                assert(final(store).comments@[b].id == old(store).comments@[b].id);
            }
        }
    }
    n
}

/// Delete a comment from the database. The target comment must have no
/// direct children: with replies present the purge fails and nothing
/// changes.
#[verifier::loop_isolation(false)]
pub fn purge(store: &mut Store, id: i64) -> (r: Result<usize, Error>)
    ensures
        match r {
            Err(e) => {
                &&& e == Error::HasChildren
                &&& exists|j: int|
                    0 <= j < old(store).comments@.len() && old(store).comments@[j].parent == Some(
                        id,
                    )
                &&& *final(store) == *old(store)
            },
            Ok(n) => {
                &&& forall|j: int|
                    0 <= j < old(store).comments@.len() ==> old(store).comments@[j].parent != Some(
                        id,
                    )
                &&& final(store).comments@ == without_id(old(store).comments@, id)
                &&& n as int == count_with_id(old(store).comments@, id)
                &&& final(store).articles == old(store).articles
                &&& final(store).users == old(store).users
                &&& final(store).groups == old(store).groups
                &&& final(store).sessions == old(store).sessions
            },
        },
        old(store).wf() ==> final(store).wf(),
{
    // Check if the comment has any direct children, and refuse to purge it
    // if so.
    let mut i: usize = 0;
    while i < store.comments.len()
        invariant
            0 <= i <= store.comments@.len(),
            forall|j: int| 0 <= j < i ==> store.comments@[j].parent != Some(id),
        decreases store.comments@.len() - i,
    {
        let is_child = match store.comments[i].parent {
            Some(q) => q == id,
            None => false,
        };
        if is_child {
            return Err(Error::HasChildren);
        }
        i += 1;
    }
    let ghost keep = (|c: Comment| c.id != id);
    let ghost hit = (|c: Comment| c.id == id);
    let mut rows: Vec<Comment> = Vec::new();
    let mut n: usize = 0;
    let mut k: usize = 0;
    while k < store.comments.len()
        invariant
            0 <= k <= store.comments@.len(),
            rows@ == store.comments@.take(k as int).filter(keep),
            n as int == store.comments@.take(k as int).filter(hit).len(),
        decreases store.comments@.len() - k,
    {
        proof {
            lemma_take_filter_step(store.comments@, keep, k as int);
            lemma_take_filter_step(store.comments@, hit, k as int);
            store.comments@.take(k as int).lemma_filter_len(hit);
        }
        let c = &store.comments[k];
        if c.id == id {
            n += 1;
        } else {
            rows.push(c.duplicate());
        }
        k += 1;
    }
    proof {
        lemma_take_all(store.comments@);
    }
    store.comments = rows;
    proof {
        if old(store).wf() {
            lemma_filter_unique_by(old(store).comments@, keep, |c: Comment| c.id);
        }
    }
    Ok(n)
}

/// Fetch the author column of one comment row.
pub fn author(store: &Store, id: i64) -> (r: Result<Option<String>, Error>)
    ensures
        match find_comment(store.comments@, id) {
            Some(c) => r == Ok::<Option<String>, Error>(c.author),
            None => r == Err::<Option<String>, Error>(Error::NotFound),
        },
{
    match comment_by_id(&store.comments, id) {
        Some(c) => Ok(clone_opt_string(&c.author)),
        None => Err(Error::NotFound),
    }
}

/// Every comment one user submitted under their account, in table order.
#[verifier::loop_isolation(false)]
pub fn by_user(store: &Store, user: &str) -> (r: Vec<Comment>)
    ensures
        r@ == store.comments@.filter(
            |c: Comment| c.author matches Some(a) && a@ == user@,
        ),
{
    let ghost p = (|c: Comment| c.author matches Some(a) && a@ == user@);
    let mut rows: Vec<Comment> = Vec::new();
    let mut i: usize = 0;
    while i < store.comments.len()
        invariant
            0 <= i <= store.comments@.len(),
            rows@ == store.comments@.take(i as int).filter(p),
        decreases store.comments@.len() - i,
    {
        proof {
            lemma_take_filter_step(store.comments@, p, i as int);
        }
        let matched = match &store.comments[i].author {
            Some(a) => a.as_str().eq(user),
            None => false,
        };
        if matched {
            rows.push(store.comments[i].duplicate());
        }
        i += 1;
    }
    proof {
        lemma_take_all(store.comments@);
    }
    rows
}

/// The root comments of `flat`, in flat-list order.
#[verifier::loop_isolation(false)]
fn collect_roots(flat: &Vec<Comment>) -> (roots: Vec<Comment>)
    ensures
        roots@ == roots_of(flat@),
{
    let ghost p = (|c: Comment| c.parent is None);
    let mut roots: Vec<Comment> = Vec::new();
    let mut i: usize = 0;
    while i < flat.len()
        invariant
            0 <= i <= flat@.len(),
            roots@ == flat@.take(i as int).filter(p),
        decreases flat@.len() - i,
    {
        proof {
            lemma_take_filter_step(flat@, p, i as int);
        }
        let matched = match flat[i].parent {
            Some(_) => false,
            None => true,
        };
        if matched {
            roots.push(flat[i].duplicate());
        }
        i += 1;
    }
    proof {
        lemma_take_all(flat@);
    }
    roots
}

} // verus!

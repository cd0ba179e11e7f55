//! The laws the comment tree builder obeys, stated and proved over the
//! specifications that the builder's own contracts use.

use vstd::prelude::*;

use crate::comment::{ascend, ascent_blocked, cnt_top, count_with_id, full, forest_matches,
    kids_of, lemma_ascend_stuck, matches_subtree, node_count, node_count_node, occ_forest,
    occ_node, parents_precede, roots_of, spec_comment_editable, spec_comment_viewable, Comment,
    Node};
use crate::error::Error;
use crate::seq_util::lemma_filter_subset;
use crate::store::{find_comment, find_group, find_user, unique_comment_ids};
use crate::user::{group_allows, Group, Permission, Session, User};

verus! {

/// Counting rows by id in a list that holds no row with that id gives zero.
proof fn lemma_count_id_absent(s: Seq<Comment>, id: i64)
    requires
        forall|j: int| 0 <= j < s.len() ==> s[j].id != id,
    ensures
        count_with_id(s, id) == 0,
    decreases s.len(),
{
    reveal(Seq::filter);
    if s.len() > 0 {
        lemma_count_id_absent(s.drop_last(), id);
    }
}

/// Appending one row raises the count for its id by one and no other.
proof fn lemma_count_push(s: Seq<Comment>, c: Comment, id: i64)
    ensures
        count_with_id(s.push(c), id) == count_with_id(s, id) + (if c.id == id {
            1int
        } else {
            0
        }),
{
    reveal(Seq::filter);
    assert(s.push(c).drop_last() =~= s);
    assert(s.push(c).last() == c);
}

/// In a table with unique ids, a filtered selection holds the row at `ix`
/// exactly once when the row passes the filter, and never otherwise.
proof fn lemma_count_filter_unique(flat: Seq<Comment>, p: spec_fn(Comment) -> bool, ix: int)
    requires
        unique_comment_ids(flat),
        0 <= ix < flat.len(),
    ensures
        count_with_id(flat.filter(p), flat[ix].id) == (if p(flat[ix]) {
            1int
        } else {
            0
        }),
    decreases flat.len(),
{
    reveal(Seq::filter);
    let id = flat[ix].id;
    if flat.len() > 0 {
        let sub = flat.drop_last();
        let last = flat.last();
        if ix < flat.len() - 1 {
            assert(unique_comment_ids(sub));
            assert(sub[ix] == flat[ix]);
            lemma_count_filter_unique(sub, p, ix);
            assert(last.id != id);
            if p(last) {
                assert(flat.filter(p) == sub.filter(p).push(last));
                lemma_count_push(sub.filter(p), last, id);
            } else {
                assert(flat.filter(p) == sub.filter(p));
            }
        } else {
            // the row itself is the last element
            assert(forall|j: int| 0 <= j < sub.len() ==> sub[j].id != id);
            lemma_filter_subset(sub, p);
            assert(forall|j: int| 0 <= j < sub.filter(p).len() ==> sub.filter(p)[j].id != id);
            lemma_count_id_absent(sub.filter(p), id);
            if p(last) {
                assert(flat.filter(p) == sub.filter(p).push(last));
                lemma_count_push(sub.filter(p), last, id);
            } else {
                assert(flat.filter(p) == sub.filter(p));
            }
        }
    }
}

/// Counting by id over the top level of a forest equals counting over the
/// sequence of its top-level comments.
proof fn lemma_cnt_top_is_count(ns: Seq<Node>, id: i64)
    ensures
        cnt_top(ns, id) == count_with_id(ns.map_values(|n: Node| n.comment), id),
    decreases ns.len(),
{
    broadcast use Seq::filter_distributes_over_add;

    reveal(Seq::filter);
    let f = (|n: Node| n.comment);
    if ns.len() == 0 {
        assert(ns.map_values(f) =~= Seq::<Comment>::empty());
    } else {
        lemma_cnt_top_is_count(ns.drop_first(), id);
        let head = seq![ns[0].comment];
        assert(ns.map_values(f) =~= head + ns.drop_first().map_values(f));
        assert(head.drop_last() =~= Seq::<Comment>::empty());
        lemma_count_id_absent(head.drop_last(), id);
        assert(count_with_id(head, id) == (if ns[0].comment.id == id {
            1int
        } else {
            0
        }));
    }
}

/// Inside one fully expanded tree, nodes carrying the id of the comment at
/// `ix` stand exactly under the nodes carrying its parent's id (and at the
/// tree's own root, when the ids agree); a comment without a parent never
/// appears below the top.
proof fn lemma_occ_node_structure(flat: Seq<Comment>, n: Node, ix: int)
    requires
        unique_comment_ids(flat),
        0 <= ix < flat.len(),
        full(flat, n),
    ensures
        occ_node(n, flat[ix].id) as int == (if n.comment.id == flat[ix].id {
            1int
        } else {
            0
        }) + (match flat[ix].parent {
            Some(p) => occ_node(n, p) as int,
            None => 0,
        }),
    decreases n,
{
    let x = flat[ix];
    let kids = n.children@;
    lemma_occ_forest_structure(flat, kids, ix);
    lemma_cnt_top_is_count(kids, x.id);
    assert(kids.map_values(|ch: Node| ch.comment) == kids_of(flat, n.comment.id));
    lemma_count_filter_unique(flat, |c: Comment| c.parent == Some(n.comment.id), ix);
    assert(cnt_top(kids, x.id) as int == (if x.parent == Some(n.comment.id) {
        1int
    } else {
        0
    }));
}

/// The forest version of `lemma_occ_node_structure`: counted over a forest
/// of fully expanded trees, nodes with the id of the comment at `ix` are its
/// top-level appearances plus one appearance under each node carrying its
/// parent's id.
proof fn lemma_occ_forest_structure(flat: Seq<Comment>, ns: Seq<Node>, ix: int)
    requires
        unique_comment_ids(flat),
        0 <= ix < flat.len(),
        forall|i: int| 0 <= i < ns.len() ==> full(flat, #[trigger] ns[i]),
    ensures
        occ_forest(ns, flat[ix].id) as int == cnt_top(ns, flat[ix].id) + (match flat[ix].parent {
            Some(p) => occ_forest(ns, p) as int,
            None => 0,
        }),
    decreases ns,
{
    if ns.len() > 0 {
        let rest = ns.drop_first();
        assert(full(flat, ns[0]));
        lemma_occ_node_structure(flat, ns[0], ix);
        assert(forall|i: int| 0 <= i < rest.len() ==> full(flat, #[trigger] rest[i]));
        lemma_occ_forest_structure(flat, rest, ix);
    }
}

/// Following the parent chain: every comment of the flat list appears
/// exactly once in a forest of fully expanded trees whose top level is the
/// root comments.
proof fn lemma_occ_one(
    flat: Seq<Comment>,
    ns: Seq<Node>,
    rank: spec_fn(int) -> nat,
    ix: int,
)
    requires
        unique_comment_ids(flat),
        parents_present(flat),
        rank_ok(flat, rank),
        0 <= ix < flat.len(),
        forall|i: int| 0 <= i < ns.len() ==> full(flat, #[trigger] ns[i]),
        ns.map_values(|n: Node| n.comment) == roots_of(flat),
    ensures
        occ_forest(ns, flat[ix].id) == 1,
    decreases rank(ix),
{
    let x = flat[ix];
    lemma_occ_forest_structure(flat, ns, ix);
    lemma_cnt_top_is_count(ns, x.id);
    lemma_count_filter_unique(flat, |c: Comment| c.parent is None, ix);
    assert(cnt_top(ns, x.id) as int == (if x.parent is None {
        1int
    } else {
        0
    }));
    match x.parent {
        None => {},
        Some(p) => {
            let k = choose|k: int| 0 <= k < flat.len() && flat[k].id == p;
            assert(0 <= k < flat.len() && flat[k].id == p);
            assert(flat[ix].parent == Some(flat[k].id));
            assert(rank(k) < rank(ix));
            lemma_occ_one(flat, ns, rank, k);
        },
    }
}

/// Every parent reference names a comment that the flat list holds: the
/// orphan-tolerance of the builder is not needed.
pub open spec fn parents_present(flat: Seq<Comment>) -> bool {
    forall|j: int|
        0 <= j < flat.len() && flat[j].parent is Some ==> exists|k: int|
            0 <= k < flat.len() && flat[k].id == flat[j].parent->0
}

/// `rank` witnesses that the reply relation cannot cycle: every reply ranks
/// strictly above the comment it answers.
pub open spec fn rank_ok(flat: Seq<Comment>, rank: spec_fn(int) -> nat) -> bool {
    forall|j: int, k: int|
        0 <= j < flat.len() && 0 <= k < flat.len() && flat[j].parent == Some(
            #[trigger] flat[k].id,
        ) ==> rank(k) < #[trigger] rank(j)
}

/// How many of the first `k` positions rank at or above `r`.
spec fn count_rank_ge(rank: spec_fn(int) -> nat, r: nat, k: int) -> int
    decreases k,
{
    if k <= 0 {
        0
    } else {
        count_rank_ge(rank, r, k - 1) + (if rank(k - 1) >= r {
            1int
        } else {
            0
        })
    }
}

proof fn lemma_count_rank_bounds(rank: spec_fn(int) -> nat, r: nat, k: int)
    requires
        0 <= k,
    ensures
        0 <= count_rank_ge(rank, r, k) <= k,
    decreases k,
{
    if k > 0 {
        lemma_count_rank_bounds(rank, r, k - 1);
    }
}

proof fn lemma_count_rank_monotone(rank: spec_fn(int) -> nat, r1: nat, r2: nat, k: int)
    requires
        0 <= k,
        r1 <= r2,
    ensures
        count_rank_ge(rank, r2, k) <= count_rank_ge(rank, r1, k),
    decreases k,
{
    if k > 0 {
        lemma_count_rank_monotone(rank, r1, r2, k - 1);
    }
}

/// Dropping a position's own rank level from the threshold loses at least
/// that position.
proof fn lemma_count_rank_strict(rank: spec_fn(int) -> nat, ix: int, k: int)
    requires
        0 <= ix < k,
    ensures
        count_rank_ge(rank, (rank(ix) + 1) as nat, k) < count_rank_ge(rank, rank(ix), k),
    decreases k,
{
    if ix == k - 1 {
        lemma_count_rank_monotone(rank, rank(ix), (rank(ix) + 1) as nat, k - 1);
    } else {
        lemma_count_rank_strict(rank, ix, k - 1);
    }
}

/// A tree grown with fuel at least the number of comments ranking at or
/// above its root is fully expanded: each step down the tree strictly
/// raises the rank, so the chain runs out before the fuel does.
proof fn lemma_fuel_full(
    flat: Seq<Comment>,
    rank: spec_fn(int) -> nat,
    ix: int,
    fuel: nat,
    n: Node,
)
    requires
        unique_comment_ids(flat),
        rank_ok(flat, rank),
        0 <= ix < flat.len(),
        matches_subtree(flat, flat[ix], fuel, n),
        fuel >= count_rank_ge(rank, rank(ix), flat.len() as int),
    ensures
        full(flat, n),
    decreases fuel,
{
    broadcast use Seq::lemma_filter_pred;

    let len = flat.len() as int;
    let kids = kids_of(flat, flat[ix].id);
    lemma_count_rank_strict(rank, ix, len);
    lemma_count_rank_bounds(rank, (rank(ix) + 1) as nat, len);
    assert(fuel >= 1);
    lemma_filter_subset(flat, |c: Comment| c.parent == Some(flat[ix].id));
    assert forall|i: int| 0 <= i < n.children@.len() implies full(
        flat,
        #[trigger] n.children@[i],
    ) by {
        let ch = n.children@[i];
        assert(ch.comment == kids[i]);
        assert(kids[i].parent == Some(flat[ix].id));
        let j = choose|j: int| 0 <= j < flat.len() && flat[j] == kids[i];
        assert(flat[j].parent == Some(flat[ix].id));
        assert(rank(ix) < rank(j));
        lemma_count_rank_monotone(rank, (rank(ix) + 1) as nat, rank(j), len);
        assert(matches_subtree(flat, flat[j], (fuel - 1) as nat, ch));
        lemma_fuel_full(flat, rank, j, (fuel - 1) as nat, ch);
    }
}

/// A context depth of zero is a no-op ascent: the walk ends on the comment
/// it started from, so the context view of a comment at depth zero is the
/// subtree rooted exactly at that comment.
pub proof fn lemma_context_zero(flat: Seq<Comment>, c: Comment)
    ensures
        ascend(flat, c, 0) == c,
{
}

/// Ascending past the top of the ancestor chain changes nothing: once the
/// walk reaches a comment it cannot climb from, every deeper context depth
/// ends on that same comment.
pub proof fn lemma_ascend_past_top(flat: Seq<Comment>, c: Comment, k: nat, m: nat)
    requires
        ascent_blocked(flat, ascend(flat, c, k)),
        m >= k,
    ensures
        ascend(flat, c, m) == ascend(flat, c, k),
    decreases k,
{
    if k == 0 {
        lemma_ascend_stuck(flat, c, m);
    } else {
        match c.parent {
            None => {
                lemma_ascend_stuck(flat, c, m);
                lemma_ascend_stuck(flat, c, k);
            },
            Some(p) => {
                match find_comment(flat, p) {
                    None => {
                        lemma_ascend_stuck(flat, c, m);
                        lemma_ascend_stuck(flat, c, k);
                    },
                    Some(pc) => {
                        lemma_ascend_past_top(flat, pc, (k - 1) as nat, (m - 1) as nat);
                    },
                }
            },
        }
    }
}

/// A visible comment is viewable by anyone — any session, or none at all.
pub proof fn lemma_visible_viewable(
    users: Seq<User>,
    groups: Seq<Group>,
    c: Comment,
    session: Option<Session>,
)
    requires
        c.visible,
    ensures
        spec_comment_viewable(users, groups, c, session) == Ok::<bool, Error>(true),
{
}

/// A hidden comment is viewable by an actor whose group grants the blanket
/// foreign-comment permission.
pub proof fn lemma_hidden_viewable_foreign(
    users: Seq<User>,
    groups: Seq<Group>,
    c: Comment,
    s: Session,
    u: User,
    g: Group,
)
    requires
        !c.visible,
        find_user(users, s.user@) == Some(u),
        find_group(groups, u.group@) == Some(g),
        group_allows(g, Permission::EditForeignComment),
    ensures
        spec_comment_viewable(users, groups, c, Some(s)) == Ok::<bool, Error>(true),
{
}

/// A hidden comment is not viewable without a session.
pub proof fn lemma_hidden_viewable_anonymous(users: Seq<User>, groups: Seq<Group>, c: Comment)
    requires
        !c.visible,
    ensures
        spec_comment_viewable(users, groups, c, None) == Ok::<bool, Error>(false),
{
}

/// A hidden comment stays hidden from an actor whose group grants neither
/// edit permission.
pub proof fn lemma_hidden_viewable_unprivileged(
    users: Seq<User>,
    groups: Seq<Group>,
    c: Comment,
    s: Session,
    u: User,
    g: Group,
)
    requires
        !c.visible,
        find_user(users, s.user@) == Some(u),
        find_group(groups, u.group@) == Some(g),
        !group_allows(g, Permission::EditForeignComment),
        !group_allows(g, Permission::EditComment),
    ensures
        spec_comment_viewable(users, groups, c, Some(s)) == Ok::<bool, Error>(false),
{
}

/// The own-or-foreign composite, own side: an actor holding only the
/// own-comment permission can edit exactly the comments they authored.
pub proof fn lemma_editable_own_only(
    users: Seq<User>,
    groups: Seq<Group>,
    c: Comment,
    s: Session,
    u: User,
    g: Group,
)
    requires
        find_user(users, s.user@) == Some(u),
        find_group(groups, u.group@) == Some(g),
        !group_allows(g, Permission::EditForeignComment),
        group_allows(g, Permission::EditComment),
    ensures
        spec_comment_editable(users, groups, c, Some(s)) == Ok::<bool, Error>(
            c.author matches Some(a) && a@ == s.user@,
        ),
{
}

/// The own-or-foreign composite, foreign side: the blanket permission
/// reaches every comment, the guest-authored ones included, with no
/// ownership asked.
pub proof fn lemma_editable_foreign(
    users: Seq<User>,
    groups: Seq<Group>,
    c: Comment,
    s: Session,
    u: User,
    g: Group,
)
    requires
        find_user(users, s.user@) == Some(u),
        find_group(groups, u.group@) == Some(g),
        group_allows(g, Permission::EditForeignComment),
    ensures
        spec_comment_editable(users, groups, c, Some(s)) == Ok::<bool, Error>(true),
{
}

/// The occurrence counts of the first `k` flat-list comments, summed over a
/// forest.
spec fn sum_occ_forest(flat: Seq<Comment>, ns: Seq<Node>, k: int) -> nat
    decreases k,
{
    if k <= 0 {
        0
    } else {
        sum_occ_forest(flat, ns, k - 1) + occ_forest(ns, flat[k - 1].id)
    }
}

/// The occurrence counts of the first `k` flat-list comments, summed over
/// one tree.
spec fn sum_occ_node(flat: Seq<Comment>, n: Node, k: int) -> nat
    decreases k,
{
    if k <= 0 {
        0
    } else {
        sum_occ_node(flat, n, k - 1) + occ_node(n, flat[k - 1].id)
    }
}

/// How many of the first `k` flat-list comments carry `id`.
spec fn ind_count(flat: Seq<Comment>, id: i64, k: int) -> nat
    decreases k,
{
    if k <= 0 {
        0
    } else {
        ind_count(flat, id, k - 1) + (if flat[k - 1].id == id {
            1nat
        } else {
            0nat
        })
    }
}

proof fn lemma_sum_forest_split(flat: Seq<Comment>, ns: Seq<Node>, k: int)
    requires
        ns.len() > 0,
    ensures
        sum_occ_forest(flat, ns, k) == sum_occ_node(flat, ns[0], k) + sum_occ_forest(
            flat,
            ns.drop_first(),
            k,
        ),
    decreases k,
{
    if k > 0 {
        lemma_sum_forest_split(flat, ns, k - 1);
    }
}

proof fn lemma_sum_forest_empty(flat: Seq<Comment>, ns: Seq<Node>, k: int)
    requires
        ns.len() == 0,
    ensures
        sum_occ_forest(flat, ns, k) == 0,
    decreases k,
{
    if k > 0 {
        lemma_sum_forest_empty(flat, ns, k - 1);
    }
}

proof fn lemma_sum_node_split(flat: Seq<Comment>, n: Node, k: int)
    ensures
        sum_occ_node(flat, n, k) == ind_count(flat, n.comment.id, k) + sum_occ_forest(
            flat,
            n.children@,
            k,
        ),
    decreases k,
{
    if k > 0 {
        lemma_sum_node_split(flat, n, k - 1);
    }
}

proof fn lemma_ind_count_unique(flat: Seq<Comment>, id: i64, k: int)
    requires
        unique_comment_ids(flat),
        0 <= k <= flat.len(),
    ensures
        ind_count(flat, id, k) == (if exists|j: int| 0 <= j < k && #[trigger] flat[j].id == id {
            1nat
        } else {
            0nat
        }),
    decreases k,
{
    if k > 0 {
        lemma_ind_count_unique(flat, id, k - 1);
        if flat[k - 1].id == id {
            assert(forall|j: int| 0 <= j < k - 1 ==> #[trigger] flat[j].id != id);
        } else {
            assert((exists|j: int| 0 <= j < k && #[trigger] flat[j].id == id) == (exists|j: int|
                0 <= j < k - 1 && #[trigger] flat[j].id == id));
        }
    }
}

/// The flat list holds a row with the id of this node's comment.
spec fn id_in_flat(flat: Seq<Comment>, n: Node) -> bool {
    exists|j: int| 0 <= j < flat.len() && #[trigger] flat[j].id == n.comment.id
}

/// In a forest of fully expanded trees whose comments all come from the flat
/// list, summing each comment's occurrence count counts every node once.
proof fn lemma_size_forest(flat: Seq<Comment>, ns: Seq<Node>)
    requires
        unique_comment_ids(flat),
        forall|i: int| 0 <= i < ns.len() ==> full(flat, #[trigger] ns[i]),
        forall|i: int| 0 <= i < ns.len() ==> id_in_flat(flat, #[trigger] ns[i]),
    ensures
        node_count(ns) == sum_occ_forest(flat, ns, flat.len() as int),
    decreases ns,
{
    if ns.len() == 0 {
        lemma_sum_forest_empty(flat, ns, flat.len() as int);
    } else {
        let rest = ns.drop_first();
        lemma_sum_forest_split(flat, ns, flat.len() as int);
        assert(full(flat, ns[0]));
        assert(id_in_flat(flat, ns[0]));
        lemma_size_node(flat, ns[0]);
        assert(forall|i: int| 0 <= i < rest.len() ==> full(flat, #[trigger] rest[i]));
        assert forall|i: int| 0 <= i < rest.len() implies id_in_flat(flat, #[trigger] rest[i]) by {
            assert(rest[i] == ns[i + 1]);
        }
        lemma_size_forest(flat, rest);
    }
}

proof fn lemma_size_node(flat: Seq<Comment>, n: Node)
    requires
        unique_comment_ids(flat),
        full(flat, n),
        id_in_flat(flat, n),
    ensures
        node_count_node(n) == sum_occ_node(flat, n, flat.len() as int),
    decreases n,
{
    let kids = kids_of(flat, n.comment.id);
    lemma_sum_node_split(flat, n, flat.len() as int);
    lemma_ind_count_unique(flat, n.comment.id, flat.len() as int);
    lemma_filter_subset(flat, |c: Comment| c.parent == Some(n.comment.id));
    assert forall|i: int|
        0 <= i < n.children@.len() implies id_in_flat(flat, #[trigger] n.children@[i]) by {
        assert(n.children@[i].comment == kids[i]);
        let j = choose|j: int| 0 <= j < flat.len() && flat[j] == kids[i];
        assert(flat[j].id == n.children@[i].comment.id);
    }
    lemma_size_forest(flat, n.children@);
}

proof fn lemma_sum_of_ones(flat: Seq<Comment>, ns: Seq<Node>, k: int)
    requires
        0 <= k <= flat.len(),
        forall|ix: int| 0 <= ix < k ==> occ_forest(ns, (#[trigger] flat[ix]).id) == 1,
    ensures
        sum_occ_forest(flat, ns, k) == k,
    decreases k,
{
    if k > 0 {
        lemma_sum_of_ones(flat, ns, k - 1);
    }
}

/// The law of the forest builder: over a flat list with unique ids, no
/// orphaned replies, and an acyclic reply relation (witnessed by `rank`),
/// the built forest holds every comment exactly once — each root comment
/// once at the top level, each reply once among the children of the node
/// carrying its parent — and so the forest's node count equals the flat
/// list's length.
pub proof fn lemma_forest_complete(flat: Seq<Comment>, ns: Seq<Node>, rank: spec_fn(int) -> nat)
    requires
        forest_matches(flat, ns),
        unique_comment_ids(flat),
        parents_present(flat),
        rank_ok(flat, rank),
    ensures
        forall|i: int| 0 <= i < ns.len() ==> full(flat, #[trigger] ns[i]),
        forall|ix: int| 0 <= ix < flat.len() ==> occ_forest(ns, (#[trigger] flat[ix]).id) == 1,
        forall|ix: int|
            0 <= ix < flat.len() && (#[trigger] flat[ix]).parent is Some ==> count_with_id(
                kids_of(flat, flat[ix].parent->0),
                flat[ix].id,
            ) == 1,
        forall|ix: int|
            0 <= ix < flat.len() && (#[trigger] flat[ix]).parent is None ==> count_with_id(
                roots_of(flat),
                flat[ix].id,
            ) == 1,
        node_count(ns) == flat.len(),
{
    lemma_filter_subset(flat, |c: Comment| c.parent is None);
    assert forall|i: int| 0 <= i < ns.len() implies full(flat, #[trigger] ns[i]) by {
        assert(ns[i].comment == roots_of(flat)[i]);
        let j = choose|j: int| 0 <= j < flat.len() && flat[j] == roots_of(flat)[i];
        assert(matches_subtree(flat, flat[j], flat.len(), ns[i]));
        lemma_count_rank_bounds(rank, rank(j), flat.len() as int);
        lemma_fuel_full(flat, rank, j, flat.len(), ns[i]);
    }
    assert forall|ix: int|
        0 <= ix < flat.len() implies occ_forest(ns, (#[trigger] flat[ix]).id) == 1 by {
        lemma_occ_one(flat, ns, rank, ix);
    }
    assert forall|ix: int|
        0 <= ix < flat.len() && (#[trigger] flat[ix]).parent is Some implies count_with_id(
        kids_of(flat, flat[ix].parent->0),
        flat[ix].id,
    ) == 1 by {
        lemma_count_filter_unique(flat, |c: Comment| c.parent == Some(flat[ix].parent->0), ix);
    }
    assert forall|ix: int|
        0 <= ix < flat.len() && (#[trigger] flat[ix]).parent is None implies count_with_id(
        roots_of(flat),
        flat[ix].id,
    ) == 1 by {
        lemma_count_filter_unique(flat, |c: Comment| c.parent is None, ix);
    }
    assert forall|i: int| 0 <= i < ns.len() implies id_in_flat(flat, #[trigger] ns[i]) by {
        assert(ns[i].comment == roots_of(flat)[i]);
        let j = choose|j: int| 0 <= j < flat.len() && flat[j] == roots_of(flat)[i];
        assert(flat[j].id == ns[i].comment.id);
    }
    lemma_size_forest(flat, ns);
    lemma_sum_of_ones(flat, ns, flat.len() as int);
}

/// The forest law for lists as the store returns them: rows in insertion
/// order, so every parent stands earlier in the list than its replies. The
/// position itself then witnesses the acyclicity.
pub proof fn lemma_forest_complete_ordered(flat: Seq<Comment>, ns: Seq<Node>)
    requires
        forest_matches(flat, ns),
        unique_comment_ids(flat),
        parents_precede(flat),
    ensures
        forall|i: int| 0 <= i < ns.len() ==> full(flat, #[trigger] ns[i]),
        forall|ix: int| 0 <= ix < flat.len() ==> occ_forest(ns, (#[trigger] flat[ix]).id) == 1,
        node_count(ns) == flat.len(),
{
    let rank = (|j: int|
        if 0 <= j {
            j as nat
        } else {
            0nat
        });
    assert forall|j: int, k: int|
        0 <= j < flat.len() && 0 <= k < flat.len() && flat[j].parent == Some(
            #[trigger] flat[k].id,
        ) implies rank(k) < #[trigger] rank(j) by {
        let e = choose|e: int| 0 <= e < j && flat[e].id == flat[j].parent->0;
        assert(flat[e].id == flat[k].id);
        assert(e == k);
    }
    lemma_forest_complete(flat, ns, rank);
}

} // verus!

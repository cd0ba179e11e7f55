//! The comment tree builder, exercised on concrete flat lists.

use mogger::comment::{build_forest, list, list_flat, view, view_single, Comment, Node};
use mogger::store::Store;

fn comment(id: i64, parent: Option<i64>) -> Comment {
    Comment {
        id,
        parent,
        article: 1,
        author: Some(String::from("test_author")),
        name: None,
        content: String::from("Test article"),
        date: 1_700_000_000,
        visible: true,
    }
}

fn store_with(comments: Vec<Comment>) -> Store {
    Store {
        articles: Vec::new(),
        comments,
        users: Vec::new(),
        groups: Vec::new(),
        sessions: Vec::new(),
    }
}

fn ids_of(nodes: &[Node]) -> Vec<i64> {
    nodes.iter().map(|n| n.comment.id).collect()
}

fn count_nodes(nodes: &[Node]) -> usize {
    nodes.iter().map(|n| 1 + count_nodes(&n.children)).sum()
}

/// The example scenario: two roots, a chain under the first.
#[test]
fn example_forest_shape() {
    let store = store_with(vec![
        comment(1, None),
        comment(2, Some(1)),
        comment(3, Some(2)),
        comment(4, None),
    ]);
    let forest = list(&store, 1);
    assert_eq!(ids_of(&forest), vec![1, 4]);
    assert_eq!(ids_of(&forest[0].children), vec![2]);
    assert_eq!(ids_of(&forest[0].children[0].children), vec![3]);
    assert!(forest[0].children[0].children[0].children.is_empty());
    assert!(forest[1].children.is_empty());
}

/// The example scenario's context view: one level up from comment 3 roots
/// the view at comment 2, which still carries comment 3.
#[test]
fn example_context_view() {
    let store = store_with(vec![
        comment(1, None),
        comment(2, Some(1)),
        comment(3, Some(2)),
        comment(4, None),
    ]);
    let node = view(&store, 3, 1).expect("comment 3 exists");
    assert_eq!(node.comment.id, 2);
    assert_eq!(ids_of(&node.children), vec![3]);
}

/// Depth zero is a no-op ascent: the view is rooted at the comment itself.
#[test]
fn context_depth_zero_is_identity() {
    let store = store_with(vec![comment(1, None), comment(2, Some(1)), comment(3, Some(2))]);
    let node = view(&store, 2, 0).expect("comment 2 exists");
    let bare = view_single(&store, 2).expect("comment 2 exists");
    assert_eq!(node.comment.id, bare.id);
    assert_eq!(ids_of(&node.children), vec![3]);
}

/// Ascending past the root stops at the topmost ancestor.
#[test]
fn context_past_root_stops_at_top() {
    let store = store_with(vec![comment(1, None), comment(2, Some(1)), comment(3, Some(2))]);
    let node = view(&store, 3, 99).expect("comment 3 exists");
    assert_eq!(node.comment.id, 1);
    assert_eq!(ids_of(&node.children), vec![2]);
    assert_eq!(ids_of(&node.children[0].children), vec![3]);
}

/// A missing target yields no context view.
#[test]
fn context_of_missing_comment() {
    let store = store_with(vec![comment(1, None)]);
    assert!(view(&store, 9, 0).is_none());
}

/// Every non-orphaned comment appears exactly once; the node count equals
/// the flat list's length.
#[test]
fn forest_counts_every_comment_once() {
    let flat = vec![
        comment(1, None),
        comment(2, Some(1)),
        comment(3, Some(1)),
        comment(4, Some(2)),
        comment(5, None),
        comment(6, Some(5)),
    ];
    let forest = build_forest(&flat);
    assert_eq!(count_nodes(&forest), 6);
    assert_eq!(ids_of(&forest), vec![1, 5]);
    assert_eq!(ids_of(&forest[0].children), vec![2, 3]);
    assert_eq!(ids_of(&forest[0].children[0].children), vec![4]);
}

/// An orphan (parent not in the list) silently disappears from the forest.
#[test]
fn orphans_are_excluded() {
    let flat = vec![comment(1, None), comment(7, Some(99))];
    let forest = build_forest(&flat);
    assert_eq!(ids_of(&forest), vec![1]);
    assert_eq!(count_nodes(&forest), 1);
}

/// The flat list of one article leaves other articles' comments out.
#[test]
fn flat_list_filters_by_article() {
    let mut other = comment(5, None);
    other.article = 2;
    let store = store_with(vec![comment(1, None), other, comment(2, Some(1))]);
    let flat = list_flat(&store, 1);
    let ids: Vec<i64> = flat.iter().map(|c| c.id).collect();
    assert_eq!(ids, vec![1, 2]);
}

/// An empty flat list builds an empty forest.
#[test]
fn empty_forest() {
    let forest = build_forest(&Vec::new());
    assert!(forest.is_empty());
}

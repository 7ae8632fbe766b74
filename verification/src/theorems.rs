//! What holds of every search, proved from the definition of the search.

use vstd::prelude::*;
use crate::model::Node;
use crate::search::{is_match, lemma_matches_in_single, matches_in_forest, matches_in_node};

verus! {

/// Whether no node at or below `node`, folder or entry, is named `target`.
pub open spec fn node_avoids(node: Node, target: Seq<char>) -> bool
    decreases node,
{
    match node {
        Node::Folder { name, children } => name != target && forest_avoids(children, target),
        Node::Url { name, .. } => name != target,
    }
}

/// Whether no node anywhere in `forest` is named `target`.
pub open spec fn forest_avoids(forest: Seq<Node>, target: Seq<char>) -> bool
    decreases forest,
{
    forest.len() == 0 || (node_avoids(forest.first(), target) && forest_avoids(
        forest.drop_first(),
        target,
    ))
}

/// Every node that a search below one node collects is a folder named `target`.
pub proof fn lemma_node_matches_are_named(node: Node, target: Seq<char>)
    ensures
        forall|i: int|
            0 <= i < matches_in_node(node, target).len() ==> is_match(
                #[trigger] matches_in_node(node, target)[i],
                target,
            ),
    decreases node,
{
    match node {
        Node::Folder { name, children } => {
            if name != target {
                lemma_matches_are_named(children, target);
                assert(matches_in_node(node, target) == matches_in_forest(children, target));
            } else {
                assert(matches_in_node(node, target) == seq![node]);
            }
        },
        Node::Url { .. } => {
            assert(matches_in_node(node, target) == Seq::<Node>::empty());
        },
    }
}

/// Every node that a search collects is a folder named `target`.
pub proof fn lemma_matches_are_named(forest: Seq<Node>, target: Seq<char>)
    ensures
        forall|i: int|
            0 <= i < matches_in_forest(forest, target).len() ==> is_match(
                #[trigger] matches_in_forest(forest, target)[i],
                target,
            ),
    decreases forest,
{
    if forest.len() > 0 {
        lemma_node_matches_are_named(forest.first(), target);
        lemma_matches_are_named(forest.drop_first(), target);
        assert(matches_in_forest(forest, target) == matches_in_node(forest.first(), target)
            + matches_in_forest(forest.drop_first(), target));
    }
}

/// Below a node where nothing is named `target`, a search collects nothing.
pub proof fn lemma_node_avoiding_gives_nothing(node: Node, target: Seq<char>)
    requires
        node_avoids(node, target),
    ensures
        matches_in_node(node, target) == Seq::<Node>::empty(),
    decreases node,
{
    match node {
        Node::Folder { name, children } => {
            lemma_avoiding_gives_nothing(children, target);
        },
        Node::Url { .. } => {},
    }
}

/// In a forest where no node is named `target`, a search collects nothing.
pub proof fn lemma_avoiding_gives_nothing(forest: Seq<Node>, target: Seq<char>)
    requires
        forest_avoids(forest, target),
    ensures
        matches_in_forest(forest, target) == Seq::<Node>::empty(),
    decreases forest,
{
    if forest.len() > 0 {
        lemma_node_avoiding_gives_nothing(forest.first(), target);
        lemma_avoiding_gives_nothing(forest.drop_first(), target);
        assert(matches_in_forest(forest, target) == matches_in_node(forest.first(), target)
            + matches_in_forest(forest.drop_first(), target));
        assert(Seq::<Node>::empty() + Seq::<Node>::empty() =~= Seq::<Node>::empty());
    }
}

/// A folder named `target` is collected alone, whatever lies below it: the
/// search does not look among the children of a folder that it collects.
pub proof fn lemma_match_hides_descendants(
    name: Seq<char>,
    children: Seq<Node>,
    target: Seq<char>,
)
    requires
        name == target,
    ensures
        matches_in_forest(seq![(Node::Folder { name, children })], target) == seq![
            (Node::Folder { name, children }),
        ],
{
    lemma_matches_in_single(Node::Folder { name, children }, target);
}

/// A folder of another name gives what its children give.
pub proof fn lemma_other_folder_gives_childrens(
    name: Seq<char>,
    children: Seq<Node>,
    target: Seq<char>,
)
    requires
        name != target,
    ensures
        matches_in_forest(seq![(Node::Folder { name, children })], target) == matches_in_forest(
            children,
            target,
        ),
{
    lemma_matches_in_single(Node::Folder { name, children }, target);
}

/// All the nodes at and below `node`: the node itself first, then those of
/// its children from left to right, each child with all that lies below it
/// before the next child.
pub open spec fn preorder_of_node(node: Node) -> Seq<Node>
    decreases node,
{
    match node {
        Node::Folder { children, .. } => seq![node] + preorder_of_forest(children),
        Node::Url { .. } => seq![node],
    }
}

/// All the nodes of `forest`, tree by tree from left to right, depth first.
pub open spec fn preorder_of_forest(forest: Seq<Node>) -> Seq<Node>
    decreases forest,
{
    if forest.len() == 0 {
        Seq::empty()
    } else {
        preorder_of_node(forest.first()) + preorder_of_forest(forest.drop_first())
    }
}

/// Whether `part` is what is left of `whole` when some of its elements are
/// taken out and the others keep their order.
pub open spec fn is_subsequence(part: Seq<Node>, whole: Seq<Node>) -> bool
    decreases whole.len(),
{
    if part.len() == 0 {
        true
    } else if whole.len() == 0 {
        false
    } else {
        (part.first() == whole.first() && is_subsequence(part.drop_first(), whole.drop_first()))
            || is_subsequence(part, whole.drop_first())
    }
}

/// A subsequence of `whole` is a subsequence of `whole` with more in front.
pub proof fn lemma_subsequence_after(part: Seq<Node>, front: Seq<Node>, whole: Seq<Node>)
    requires
        is_subsequence(part, whole),
    ensures
        is_subsequence(part, front + whole),
    decreases front.len(),
{
    let all = front + whole;
    if front.len() == 0 {
        assert(all =~= whole);
    } else {
        lemma_subsequence_after(part, front.drop_first(), whole);
        assert(all.drop_first() =~= front.drop_first() + whole);
        assert(is_subsequence(part, all) == (part.len() == 0 || (part.first() == all.first()
            && is_subsequence(part.drop_first(), all.drop_first())) || is_subsequence(
            part,
            all.drop_first(),
        )));
    }
}

/// Subsequences of two sequences, one after the other, are a subsequence of
/// the two sequences one after the other.
pub proof fn lemma_subsequence_concat(
    part: Seq<Node>,
    whole: Seq<Node>,
    next_part: Seq<Node>,
    next_whole: Seq<Node>,
)
    requires
        is_subsequence(part, whole),
        is_subsequence(next_part, next_whole),
    ensures
        is_subsequence(part + next_part, whole + next_whole),
    decreases whole.len(),
{
    let parts = part + next_part;
    let all = whole + next_whole;
    if part.len() == 0 {
        assert(parts =~= next_part);
        lemma_subsequence_after(next_part, whole, next_whole);
    } else {
        assert(whole.len() > 0);
        assert(is_subsequence(part, whole) == ((part.first() == whole.first() && is_subsequence(
            part.drop_first(),
            whole.drop_first(),
        )) || is_subsequence(part, whole.drop_first())));
        assert(all.drop_first() =~= whole.drop_first() + next_whole);
        assert(is_subsequence(parts, all) == ((parts.first() == all.first() && is_subsequence(
            parts.drop_first(),
            all.drop_first(),
        )) || is_subsequence(parts, all.drop_first())));
        if part.first() == whole.first() && is_subsequence(part.drop_first(), whole.drop_first()) {
            lemma_subsequence_concat(
                part.drop_first(),
                whole.drop_first(),
                next_part,
                next_whole,
            );
            assert(parts.drop_first() =~= part.drop_first() + next_part);
        } else {
            lemma_subsequence_concat(part, whole.drop_first(), next_part, next_whole);
        }
    }
}

/// What a search collects below one node comes in the depth-first order
/// of the nodes at and below it.
pub proof fn lemma_node_matches_in_preorder(node: Node, target: Seq<char>)
    ensures
        is_subsequence(matches_in_node(node, target), preorder_of_node(node)),
    decreases node,
{
    let found = matches_in_node(node, target);
    let all = preorder_of_node(node);
    match node {
        Node::Folder { name, children } => {
            assert(all == seq![node] + preorder_of_forest(children));
            if name == target {
                assert(found == seq![node]);
                assert(found.first() == all.first());
                assert(is_subsequence(found.drop_first(), all.drop_first()));
                assert(is_subsequence(found, all));
            } else {
                assert(found == matches_in_forest(children, target));
                lemma_matches_in_preorder(children, target);
                lemma_subsequence_after(found, seq![node], preorder_of_forest(children));
            }
        },
        Node::Url { .. } => {
            assert(found == Seq::<Node>::empty());
        },
    }
}

/// What a search collects comes in the order of the forest: left to right,
/// depth first. It is what is left of the forest's nodes in that order when
/// the others are taken out.
pub proof fn lemma_matches_in_preorder(forest: Seq<Node>, target: Seq<char>)
    ensures
        is_subsequence(matches_in_forest(forest, target), preorder_of_forest(forest)),
    decreases forest,
{
    if forest.len() > 0 {
        lemma_node_matches_in_preorder(forest.first(), target);
        lemma_matches_in_preorder(forest.drop_first(), target);
        assert(matches_in_forest(forest, target) == matches_in_node(forest.first(), target)
            + matches_in_forest(forest.drop_first(), target));
        assert(preorder_of_forest(forest) == preorder_of_node(forest.first())
            + preorder_of_forest(forest.drop_first()));
        lemma_subsequence_concat(
            matches_in_node(forest.first(), target),
            preorder_of_node(forest.first()),
            matches_in_forest(forest.drop_first(), target),
            preorder_of_forest(forest.drop_first()),
        );
    } else {
        assert(matches_in_forest(forest, target) == Seq::<Node>::empty());
    }
}

/// A search of the empty forest collects nothing, whatever the name.
pub proof fn lemma_empty_forest_gives_nothing(target: Seq<char>)
    ensures
        matches_in_forest(Seq::<Node>::empty(), target) == Seq::<Node>::empty(),
{
}

} // verus!

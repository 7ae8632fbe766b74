//! Searching a forest of bookmarks for the folders of a given name.

use vstd::prelude::*;
use crate::error::Failure;
use crate::model::{
    forest_view, lemma_forest_view_concat, lemma_forest_view_index, Bookmarks, Document, Node,
};

verus! {

/// Whether `node` is a folder whose name is exactly `target`.
pub open spec fn is_match(node: Node, target: Seq<char>) -> bool {
    node matches Node::Folder { name, .. } && name == target
}

/// What the search collects below and at one node: the node itself where it
/// is a folder named `target`, what its children give where it is a folder
/// of another name, and nothing for an entry.
pub open spec fn matches_in_node(node: Node, target: Seq<char>) -> Seq<Node>
    decreases node,
{
    match node {
        Node::Folder { name, children } => if name == target {
            seq![node]
        } else {
            matches_in_forest(children, target)
        },
        Node::Url { .. } => Seq::empty(),
    }
}

/// What the search collects in a forest: what its first tree gives, followed
/// by what the rest of the forest gives.
pub open spec fn matches_in_forest(forest: Seq<Node>, target: Seq<char>) -> Seq<Node>
    decreases forest,
{
    if forest.len() == 0 {
        Seq::empty()
    } else {
        matches_in_node(forest.first(), target) + matches_in_forest(forest.drop_first(), target)
    }
}

/// A forest of one tree gives what that tree gives.
pub proof fn lemma_matches_in_single(node: Node, target: Seq<char>)
    ensures
        matches_in_forest(seq![node], target) == matches_in_node(node, target),
{
    let one = seq![node];
    assert(matches_in_forest(one, target) == matches_in_node(one.first(), target)
        + matches_in_forest(one.drop_first(), target));
    assert(matches_in_forest(one.drop_first(), target) == Seq::<Node>::empty());
    assert(matches_in_node(node, target) + Seq::<Node>::empty() =~= matches_in_node(node, target));
}

/// The search keeps the order of the forest: what two forests give one
/// after the other is what the first gives followed by what the second gives.
pub proof fn lemma_matches_concat(left: Seq<Node>, right: Seq<Node>, target: Seq<char>)
    ensures
        matches_in_forest(left + right, target) == matches_in_forest(left, target)
            + matches_in_forest(right, target),
    decreases left.len(),
{
    let whole = left + right;
    if left.len() == 0 {
        assert(whole =~= right);
        assert(matches_in_forest(left, target) == Seq::<Node>::empty());
        assert(Seq::<Node>::empty() + matches_in_forest(right, target) =~= matches_in_forest(
            right,
            target,
        ));
    } else {
        lemma_matches_concat(left.drop_first(), right, target);
        assert(whole.first() == left.first());
        assert(whole.drop_first() =~= left.drop_first() + right);
        assert(matches_in_forest(whole, target) == matches_in_node(whole.first(), target)
            + matches_in_forest(whole.drop_first(), target));
        assert(matches_in_forest(left, target) == matches_in_node(left.first(), target)
            + matches_in_forest(left.drop_first(), target));
        assert(matches_in_node(left.first(), target) + (matches_in_forest(
            left.drop_first(),
            target,
        ) + matches_in_forest(right, target)) =~= (matches_in_node(left.first(), target)
            + matches_in_forest(left.drop_first(), target)) + matches_in_forest(right, target));
    }
}

/// Collects, in document order, a deep copy of every folder named `target`
/// at or below `node`, without looking below a folder that it collects.
pub fn find_in_node(node: &Bookmarks, target: &String) -> (found: Vec<Bookmarks>)
    ensures
        forest_view(found@) == matches_in_node(node@, target@),
    decreases node,
{
    match node {
        Bookmarks::Folder { name, children } => {
            if *name == *target {
                let mut found: Vec<Bookmarks> = Vec::new();
                found.push(node.clone());
                proof {
                    lemma_forest_view_index(found@);
                    assert(forest_view(found@) =~= seq![node@]);
                }
                found
            } else {
                let mut found: Vec<Bookmarks> = Vec::new();
                let mut i: usize = 0;
                proof {
                    lemma_forest_view_index(found@);
                    assert(forest_view(children@).take(0) =~= Seq::<Node>::empty());
                    assert(matches_in_forest(Seq::<Node>::empty(), target@) == Seq::<Node>::empty());
                    assert(forest_view(found@) =~= Seq::<Node>::empty());
                }
                while i < children.len()
                    invariant
                        i <= children.len(),
                        *node matches Bookmarks::Folder { children: c, .. } && c == *children,
                        forest_view(found@) == matches_in_forest(
                            forest_view(children@).take(i as int),
                            target@,
                        ),
                    decreases children.len() - i,
                {
                    let mut sub = find_in_node(&children[i], target);
                    proof {
                        lemma_search_step(children@, i as int, found@, sub@, target@);
                    }
                    found.append(&mut sub);
                    i += 1;
                }
                proof {
                    lemma_forest_view_index(children@);
                    assert(forest_view(children@).take(i as int) =~= forest_view(children@));
                }
                found
            }
        },
        Bookmarks::Url { .. } => {
            let found: Vec<Bookmarks> = Vec::new();
            proof {
                lemma_forest_view_index(found@);
                assert(forest_view(found@) =~= Seq::<Node>::empty());
            }
            found
        },
    }
}

/// One step of a walk over `forest`: where `found` holds what the first `i`
/// trees give and `sub` what tree `i` gives, the two together hold what the
/// first `i + 1` trees give.
proof fn lemma_search_step(
    forest: Seq<Bookmarks>,
    i: int,
    found: Seq<Bookmarks>,
    sub: Seq<Bookmarks>,
    target: Seq<char>,
)
    requires
        0 <= i < forest.len(),
        forest_view(found) == matches_in_forest(forest_view(forest).take(i), target),
        forest_view(sub) == matches_in_node(forest[i]@, target),
    ensures
        forest_view(found + sub) == matches_in_forest(forest_view(forest).take(i + 1), target),
{
    let models = forest_view(forest);
    lemma_forest_view_index(forest);
    lemma_forest_view_concat(found, sub);
    lemma_matches_in_single(models[i], target);
    lemma_matches_concat(models.take(i), seq![models[i]], target);
    assert(models.take(i + 1) =~= models.take(i) + seq![models[i]]);
}

/// Collects, in document order, a deep copy of every folder of the forest
/// `v` whose name is exactly `needle`. A folder that is collected is not
/// searched further; a folder of another name is searched; an entry gives
/// nothing.
pub fn find_folder(v: &[Bookmarks], needle: &str) -> (found: Vec<Bookmarks>)
    ensures
        forest_view(found@) == matches_in_forest(forest_view(v@), needle@),
{
    let target = needle.to_owned();
    let mut found: Vec<Bookmarks> = Vec::new();
    let mut i: usize = 0;
    proof {
        lemma_forest_view_index(found@);
        assert(forest_view(v@).take(0) =~= Seq::<Node>::empty());
        assert(matches_in_forest(Seq::<Node>::empty(), target@) == Seq::<Node>::empty());
        assert(forest_view(found@) =~= Seq::<Node>::empty());
    }
    while i < v.len()
        invariant
            i <= v.len(),
            target@ == needle@,
            forest_view(found@) == matches_in_forest(forest_view(v@).take(i as int), target@),
        decreases v.len() - i,
    {
        let mut sub = find_in_node(&v[i], &target);
        proof {
            lemma_search_step(v@, i as int, found@, sub@, target@);
        }
        found.append(&mut sub);
        i += 1;
    }
    proof {
        lemma_forest_view_index(v@);
        assert(forest_view(v@).take(i as int) =~= forest_view(v@));
    }
    found
}

/// The folders of `document` that are called `name`, in document order, or
/// the failure to find any: an empty result is a failure here.
pub fn find_in_document(document: &Document, name: &str) -> (outcome: Result<
    Vec<Bookmarks>,
    Failure,
>)
    ensures
        matches_in_forest(document.trees(), name@).len() > 0 ==> {
            &&& outcome matches Ok(found)
            &&& forest_view(found@) == matches_in_forest(document.trees(), name@)
        },
        matches_in_forest(document.trees(), name@).len() == 0 ==> {
            &&& outcome matches Err(Failure::NoMatch { name: missing })
            &&& missing@ == name@
        },
{
    let forest = document.forest();
    let found = find_folder(forest.as_slice(), name);
    proof {
        lemma_forest_view_index(found@);
    }
    if found.len() == 0 {
        Err(Failure::NoMatch { name: name.to_owned() })
    } else {
        Ok(found)
    }
}

} // verus!

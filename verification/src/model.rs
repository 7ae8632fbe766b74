//! The bookmark tree and its mathematical model.

use vstd::prelude::*;

verus! {

/// A node of the bookmark tree as it is held in memory.
#[derive(Debug, PartialEq, Eq)]
pub enum Bookmarks {
    /// A named folder with its children in display order.
    Folder { name: String, children: Vec<Bookmarks> },
    /// A single bookmarked target.
    Url { name: String, url: String },
}

/// One root of a document: a top-level tree under its logical name.
#[derive(Debug, PartialEq, Eq)]
pub struct Root {
    pub name: String,
    pub node: Bookmarks,
}

/// A decoded bookmark store.
#[derive(Debug, PartialEq, Eq)]
pub struct Document {
    /// The store's integrity token, which the search does not read.
    pub checksum: String,
    /// The top-level trees, each under its own name.
    pub roots: Vec<Root>,
}

/// The mathematical model of a bookmark node: names as sequences of
/// characters, children as a sequence of models.
pub ghost enum Node {
    Folder { name: Seq<char>, children: Seq<Node> },
    Url { name: Seq<char>, url: Seq<char> },
}

impl View for Bookmarks {
    type V = Node;

    open spec fn view(&self) -> Node
        decreases self,
    {
        match self {
            Bookmarks::Folder { name, children } => Node::Folder {
                name: name@,
                children: forest_view(children@),
            },
            Bookmarks::Url { name, url } => Node::Url { name: name@, url: url@ },
        }
    }
}

/// The models of the nodes of a forest, in the forest's order.
pub open spec fn forest_view(forest: Seq<Bookmarks>) -> Seq<Node>
    decreases forest,
{
    if forest.len() == 0 {
        Seq::empty()
    } else {
        forest_view(forest.drop_last()).push(forest.last()@)
    }
}

/// The model of a forest has one node for each node of the forest, in the
/// same place.
pub proof fn lemma_forest_view_index(forest: Seq<Bookmarks>)
    ensures
        forest_view(forest).len() == forest.len(),
        forall|i: int| 0 <= i < forest.len() ==> #[trigger] forest_view(forest)[i] == forest[i]@,
    decreases forest.len(),
{
    if forest.len() > 0 {
        lemma_forest_view_index(forest.drop_last());
        assert(forest_view(forest) == forest_view(forest.drop_last()).push(forest.last()@));
    }
}

/// The model of a forest followed by another is the first model followed
/// by the second.
pub proof fn lemma_forest_view_concat(left: Seq<Bookmarks>, right: Seq<Bookmarks>)
    ensures
        forest_view(left + right) == forest_view(left) + forest_view(right),
{
    lemma_forest_view_index(left);
    lemma_forest_view_index(right);
    lemma_forest_view_index(left + right);
    assert(forest_view(left + right) =~= forest_view(left) + forest_view(right));
}

/// The texts of a list of strings.
pub open spec fn texts(list: Seq<String>) -> Seq<Seq<char>> {
    Seq::new(list.len(), |i: int| list[i]@)
}

/// Whether no two of `roots` have the same name.
pub open spec fn distinct_names(roots: Seq<Root>) -> bool {
    forall|i: int, j: int|
        0 <= i < j < roots.len() ==> (#[trigger] roots[i]).name@ != (#[trigger] roots[j]).name@
}

impl Document {
    /// Whether the roots are a mapping: each name stands for one tree.
    pub open spec fn wf(&self) -> bool {
        distinct_names(self.roots@)
    }

    /// The models of the top-level trees, in the order of the roots.
    pub open spec fn trees(&self) -> Seq<Node> {
        Seq::new(self.roots@.len(), |i: int| self.roots@[i].node@)
    }

    /// A document of the given roots, where no two of them have the same
    /// name; `None` where two do.
    pub fn new(checksum: String, roots: Vec<Root>) -> (document: Option<Document>)
        ensures
            distinct_names(roots@) ==> document == Some(Document { checksum, roots }),
            !distinct_names(roots@) ==> document is None,
            document matches Some(made) ==> made.wf(),
    {
        let mut j: usize = 0;
        while j < roots.len()
            invariant
                j <= roots.len(),
                distinct_names(roots@.take(j as int)),
            decreases roots.len() - j,
        {
            let mut i: usize = 0;
            while i < j
                invariant
                    i <= j < roots.len(),
                    forall|k: int| 0 <= k < i ==> (#[trigger] roots@[k]).name@ != roots@[j as int].name@,
                decreases j - i,
            {
                if roots[i].name == roots[j].name {
                    return None;
                }
                i += 1;
            }
            j += 1;
        }
        proof {
            assert(roots@.take(j as int) =~= roots@);
        }
        Some(Document { checksum, roots })
    }

    /// Deep copies of the top-level trees, in the order of the roots.
    pub fn forest(&self) -> (forest: Vec<Bookmarks>)
        ensures
            forest_view(forest@) == self.trees(),
    {
        let mut forest: Vec<Bookmarks> = Vec::new();
        let mut i: usize = 0;
        while i < self.roots.len()
            invariant
                i <= self.roots.len(),
                forest@.len() == i,
                forall|k: int| 0 <= k < i ==> (#[trigger] forest@[k])@ == self.roots@[k].node@,
            decreases self.roots.len() - i,
        {
            forest.push(self.roots[i].node.clone());
            i += 1;
        }
        proof {
            lemma_forest_view_index(forest@);
            assert(forest_view(forest@) =~= self.trees());
        }
        forest
    }
}

impl Bookmarks {
    /// The node's name, whichever kind of node it is.
    pub fn name(&self) -> (name: &String)
        ensures
            name@ == self@.name(),
    {
        match self {
            Bookmarks::Folder { name, .. } => name,
            Bookmarks::Url { name, .. } => name,
        }
    }

    /// Whether the node is a folder.
    pub fn is_folder(&self) -> (yes: bool)
        ensures
            yes == self@.is_folder(),
    {
        match self {
            Bookmarks::Folder { .. } => true,
            Bookmarks::Url { .. } => false,
        }
    }
}

impl Node {
    /// The node's name, whichever kind of node it is.
    pub open spec fn name(self) -> Seq<char> {
        match self {
            Node::Folder { name, .. } => name,
            Node::Url { name, .. } => name,
        }
    }

    /// Whether the node is a folder.
    pub open spec fn is_folder(self) -> bool {
        self is Folder
    }
}

impl Clone for Bookmarks {
    /// A deep copy: the copy owns its whole subtree and has the model of
    /// the node it was made from.
    fn clone(&self) -> (copy: Self)
        ensures
            copy@ == self@,
        decreases self,
    {
        match self {
            Bookmarks::Folder { name, children } => {
                let mut kids: Vec<Bookmarks> = Vec::new();
                let mut i: usize = 0;
                while i < children.len()
                    invariant
                        i <= children.len(),
                        *self matches Bookmarks::Folder { children: c, .. } && c == *children,
                        kids@.len() == i,
                        forall|j: int| 0 <= j < i ==> (#[trigger] kids@[j])@ == children@[j]@,
                    decreases children.len() - i,
                {
                    let kid = children[i].clone();
                    kids.push(kid);
                    i += 1;
                }
                let copy = Bookmarks::Folder { name: name.clone(), children: kids };
                proof {
                    lemma_forest_view_index(kids@);
                    lemma_forest_view_index(children@);
                    assert(forest_view(kids@) =~= forest_view(children@));
                }
                copy
            },
            Bookmarks::Url { name, url } => Bookmarks::Url {
                name: name.clone(),
                url: url.clone(),
            },
        }
    }
}

} // verus!

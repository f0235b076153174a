//! The directory tree: entries that own their discovered children, the
//! placeholder that stands for children not yet listed, and the search and
//! replacement by path on which expansion rests.

use vstd::prelude::*;
use crate::text::same_text;

verus! {

/// One entry of the tree, a file or a directory.
#[derive(Debug)]
pub struct FileItem {
    /// Last component of the path, shown as the label.
    pub name: String,
    /// Canonical absolute path; the key of the entry within its tree.
    pub path: String,
    pub is_directory: bool,
    /// Kept `false`: which directories are open is recorded per tab, by path.
    pub is_expanded: bool,
    /// Empty for a file. For a directory either the placeholder alone (not yet
    /// listed) or the listed entries.
    pub children: Vec<FileItem>,
}

/// A tree entry as a mathematical value.
pub struct FileNode {
    pub name: Seq<char>,
    pub path: Seq<char>,
    pub is_directory: bool,
    pub is_expanded: bool,
    pub children: Seq<FileNode>,
}

/// The node that an entry stands for.
pub open spec fn node_of(item: FileItem) -> FileNode
    decreases item,
{
    FileNode {
        name: item.name@,
        path: item.path@,
        is_directory: item.is_directory,
        is_expanded: item.is_expanded,
        children: Seq::new(
            item.children@.len(),
            |i: int|
                if 0 <= i < item.children@.len() {
                    node_of(item.children@[i])
                } else {
                    arbitrary()
                },
        ),
    }
}

impl View for FileItem {
    type V = FileNode;

    open spec fn view(&self) -> FileNode {
        node_of(*self)
    }
}

/// The nodes that a list of entries stands for, in order.
pub open spec fn forest_of(items: Seq<FileItem>) -> Seq<FileNode> {
    Seq::new(items.len(), |i: int| items[i]@)
}

/// The children of an entry's node are the nodes of its children.
pub proof fn lemma_children_view(item: FileItem)
    ensures
        item@.children == forest_of(item.children@),
{
    let a = item@.children;
    let b = forest_of(item.children@);
    assert(a.len() == item.children@.len());
    assert(b.len() == item.children@.len());
    assert forall|i: int| 0 <= i < a.len() implies a[i] == b[i] by {
        assert(a[i] == item.children@[i]@);
        assert(b[i] == item.children@[i]@);
    }
    assert(a =~= b);
}

/// The node that marks a directory whose entries were not listed yet.
pub open spec fn placeholder() -> FileNode {
    FileNode {
        name: "..."@,
        path: ""@,
        is_directory: false,
        is_expanded: false,
        children: Seq::empty(),
    }
}

/// Children that consist of the placeholder alone: the directory was never
/// listed.
pub open spec fn is_unlisted(children: Seq<FileNode>) -> bool {
    children == seq![placeholder()]
}

/// The shape every node keeps: a file has no children; a directory has either
/// the placeholder alone or entries none of which is the placeholder, each of
/// them well formed in turn.
pub open spec fn well_formed(node: FileNode) -> bool
    decreases node,
{
    if node.is_directory {
        is_unlisted(node.children) || forall|i: int|
            0 <= i < node.children.len() ==> node.children[i] != placeholder() && well_formed(
                #[trigger] node.children[i],
            )
    } else {
        node.children.len() == 0
    }
}

/// Every node of the forest is well formed.
pub open spec fn forest_well_formed(forest: Seq<FileNode>) -> bool {
    forall|i: int| 0 <= i < forest.len() ==> well_formed(#[trigger] forest[i])
}

/// The first node with the given path, searching `forest[start..]` in
/// pre-order: a node before its children, children before later siblings.
pub open spec fn find_from(forest: Seq<FileNode>, start: int, path: Seq<char>) -> Option<FileNode>
    decreases forest, forest.len() - start,
{
    if start < 0 || start >= forest.len() {
        None
    } else if forest[start].path == path {
        Some(forest[start])
    } else {
        match find_from(forest[start].children, 0, path) {
            Some(node) => Some(node),
            None => find_from(forest, start + 1, path),
        }
    }
}

/// The first node of the forest, in pre-order, with the given path.
pub open spec fn find(forest: Seq<FileNode>, path: Seq<char>) -> Option<FileNode> {
    find_from(forest, 0, path)
}

/// `forest` with the children of the first node that `find_from` meets replaced
/// by `children`; unchanged where no node has the path.
pub open spec fn graft_from(
    forest: Seq<FileNode>,
    start: int,
    path: Seq<char>,
    children: Seq<FileNode>,
) -> Seq<FileNode>
    decreases forest, forest.len() - start,
{
    if start < 0 || start >= forest.len() {
        forest
    } else if forest[start].path == path {
        forest.update(start, FileNode { children, ..forest[start] })
    } else if find_from(forest[start].children, 0, path) is Some {
        forest.update(
            start,
            FileNode {
                children: graft_from(forest[start].children, 0, path, children),
                ..forest[start]
            },
        )
    } else {
        graft_from(forest, start + 1, path, children)
    }
}

/// `forest` with the children of the first node with the given path replaced.
pub open spec fn graft(forest: Seq<FileNode>, path: Seq<char>, children: Seq<FileNode>) -> Seq<
    FileNode,
> {
    graft_from(forest, 0, path, children)
}

/// Where no node has the path, grafting changes nothing.
pub proof fn lemma_graft_without_target(
    forest: Seq<FileNode>,
    start: int,
    path: Seq<char>,
    children: Seq<FileNode>,
)
    requires
        find_from(forest, start, path) is None,
    ensures
        graft_from(forest, start, path, children) == forest,
    decreases forest, forest.len() - start,
{
    if 0 <= start < forest.len() {
        lemma_graft_without_target(forest, start + 1, path, children);
    }
}

/// After grafting, the search meets the same node as before, now with the new
/// children; its other fields are unchanged.
pub proof fn lemma_find_after_graft(
    forest: Seq<FileNode>,
    start: int,
    path: Seq<char>,
    children: Seq<FileNode>,
)
    requires
        find_from(forest, start, path) is Some,
    ensures
        find_from(graft_from(forest, start, path, children), start, path) == Some(
            FileNode { children, ..find_from(forest, start, path)->0 },
        ),
        graft_from(forest, start, path, children).len() == forest.len(),
    decreases forest, forest.len() - start,
{
    let after = graft_from(forest, start, path, children);
    if forest[start].path == path {
    } else if find_from(forest[start].children, 0, path) is Some {
        lemma_find_after_graft(forest[start].children, 0, path, children);
    } else {
        lemma_find_after_graft(forest, start + 1, path, children);
        lemma_graft_keeps_earlier(forest, start + 1, path, children, start);
    }
}

/// Grafting from `start` on leaves the nodes before `start` as they were.
pub proof fn lemma_graft_keeps_earlier(
    forest: Seq<FileNode>,
    start: int,
    path: Seq<char>,
    children: Seq<FileNode>,
    k: int,
)
    requires
        0 <= k < start,
        k < forest.len(),
    ensures
        graft_from(forest, start, path, children).len() == forest.len(),
        graft_from(forest, start, path, children)[k] == forest[k],
    decreases forest.len() - start,
{
    if 0 <= start < forest.len() {
        if forest[start].path == path {
        } else if find_from(forest[start].children, 0, path) is Some {
        } else {
            lemma_graft_keeps_earlier(forest, start + 1, path, children, k);
        }
    }
}

/// Grafting well-formed children that are not awaited onto a well-formed forest
/// keeps it well formed, provided the target is a directory.
pub proof fn lemma_graft_well_formed(
    forest: Seq<FileNode>,
    start: int,
    path: Seq<char>,
    children: Seq<FileNode>,
)
    requires
        forest_well_formed(forest),
        forest_well_formed(children),
        forall|i: int| 0 <= i < children.len() ==> #[trigger] children[i] != placeholder(),
        find_from(forest, start, path) matches Some(node) && node.is_directory,
        forall|i: int| 0 <= i < forest.len() ==> #[trigger] forest[i] != placeholder(),
    ensures
        forest_well_formed(graft_from(forest, start, path, children)),
        forall|i: int|
            0 <= i < forest.len() ==> #[trigger] graft_from(forest, start, path, children)[i]
                != placeholder(),
        graft_from(forest, start, path, children).len() == forest.len(),
    decreases forest, forest.len() - start,
{
    let after = graft_from(forest, start, path, children);
    if forest[start].path == path {
        let node = FileNode { children, ..forest[start] };
        assert(well_formed(node));
        assert forall|i: int| 0 <= i < after.len() implies well_formed(#[trigger] after[i]) by {
            if i != start {
                assert(after[i] == forest[i]);
            }
        }
    } else if find_from(forest[start].children, 0, path) is Some {
        let parent = forest[start];
        assert(well_formed(parent));
        assert(parent.is_directory);
        assert(!is_unlisted(parent.children)) by {
            if is_unlisted(parent.children) {
                assert(parent.children[0] == placeholder());
                assert(find_from(parent.children, 1, path) is None);
                assert(find_from(placeholder().children, 0, path) is None);
            }
        }
        assert(forest_well_formed(parent.children));
        lemma_graft_well_formed(parent.children, 0, path, children);
        let grown = graft_from(parent.children, 0, path, children);
        let node = FileNode { children: grown, ..parent };
        assert(well_formed(node)) by {
            assert forall|i: int| 0 <= i < grown.len() implies grown[i] != placeholder()
                && well_formed(#[trigger] grown[i]) by {}
        }
        assert forall|i: int| 0 <= i < after.len() implies well_formed(#[trigger] after[i]) by {
            if i != start {
                assert(after[i] == forest[i]);
            }
        }
    } else {
        lemma_graft_well_formed(forest, start + 1, path, children);
    }
}

/// The search from `start` on looks at nothing before `start`.
pub proof fn lemma_find_frame(a: Seq<FileNode>, b: Seq<FileNode>, start: int, path: Seq<char>)
    requires
        a.len() == b.len(),
        0 <= start,
        forall|k: int| start <= k < a.len() ==> a[k] == b[k],
    ensures
        find_from(a, start, path) == find_from(b, start, path),
    decreases a.len() - start,
{
    if start < a.len() {
        lemma_find_frame(a, b, start + 1, path);
    }
}

/// Grafting at a directory never yields the placeholder alone.
pub proof fn lemma_graft_not_unlisted(
    forest: Seq<FileNode>,
    path: Seq<char>,
    children: Seq<FileNode>,
)
    requires
        find_from(forest, 0, path) matches Some(target) && target.is_directory,
    ensures
        !is_unlisted(graft_from(forest, 0, path, children)),
{
    let after = graft_from(forest, 0, path, children);
    lemma_find_after_graft(forest, 0, path, children);
    if is_unlisted(after) {
        assert(after.len() == 1);
        assert(after[0] == placeholder());
        if forest[0].path == path {
        } else if find_from(forest[0].children, 0, path) is Some {
            lemma_find_after_graft(forest[0].children, 0, path, children);
        } else {
            assert(find_from(forest, 1, path) is None);
        }
    }
}

/// What grafting at `path` does to the search for another path `other`, where
/// neither the children put in nor the children taken out hold `other`: the
/// search meets a node with the same name, path and kind as before, whose
/// children are as before or, where the graft went below that node, are the
/// former children after the same graft.
pub proof fn lemma_find_other_after_graft(
    forest: Seq<FileNode>,
    start: int,
    path: Seq<char>,
    children: Seq<FileNode>,
    other: Seq<char>,
)
    requires
        0 <= start,
        other != path,
        find_from(forest, start, path) matches Some(target) && find_from(
            target.children,
            0,
            other,
        ) is None,
        find_from(children, 0, other) is None,
    ensures
        match find_from(forest, start, other) {
            None => find_from(graft_from(forest, start, path, children), start, other) is None,
            Some(node) => find_from(graft_from(forest, start, path, children), start, other)
                matches Some(met) && met.name == node.name && met.path == node.path
                && met.is_directory == node.is_directory && (met.children == node.children || (
            find_from(node.children, 0, path) == find_from(forest, start, path)
                && met.children == graft_from(
                node.children,
                0,
                path,
                children,
            ))),
        },
    decreases forest, forest.len() - start,
{
    let after = graft_from(forest, start, path, children);
    lemma_find_after_graft(forest, start, path, children);
    if forest[start].path == path {
        lemma_find_frame(after, forest, start + 1, other);
    } else if find_from(forest[start].children, 0, path) is Some {
        if forest[start].path == other {
        } else {
            lemma_find_other_after_graft(forest[start].children, 0, path, children, other);
            lemma_find_frame(after, forest, start + 1, other);
        }
    } else {
        lemma_graft_keeps_earlier(forest, start + 1, path, children, start);
        if forest[start].path == other {
        } else if find_from(forest[start].children, 0, other) is Some {
        } else {
            lemma_find_other_after_graft(forest, start + 1, path, children, other);
            lemma_find_frame(after, graft_from(forest, start + 1, path, children), start + 1, other);
        }
    }
}

impl Clone for FileItem {
    fn clone(&self) -> (r: Self)
        ensures
            r@ == self@,
    {
        self.duplicate()
    }
}

impl FileItem {
    /// The placeholder entry.
    pub fn placeholder() -> (r: Self)
        ensures
            r@ == placeholder(),
    {
        let r = FileItem {
            name: "...".to_owned(),
            path: "".to_owned(),
            is_directory: false,
            is_expanded: false,
            children: Vec::new(),
        };
        assert(r@.children =~= Seq::<FileNode>::empty());
        r
    }

    /// A copy of the entry with all that is below it.
    pub fn duplicate(&self) -> (r: Self)
        ensures
            r@ == self@,
        decreases self,
    {
        let mut children: Vec<FileItem> = Vec::new();
        let mut i: usize = 0;
        while i < self.children.len()
            invariant
                i <= self.children.len(),
                children.len() == i,
                forall|k: int| 0 <= k < i ==> children@[k]@ == self.children@[k]@,
            decreases self.children.len() - i,
        {
            children.push(self.children[i].duplicate());
            i = i + 1;
        }
        let r = FileItem {
            name: self.name.clone(),
            path: self.path.clone(),
            is_directory: self.is_directory,
            is_expanded: self.is_expanded,
            children,
        };
        assert(r@.children =~= self@.children);
        r
    }

    /// Whether the entry is the placeholder.
    pub fn is_placeholder(&self) -> (r: bool)
        ensures
            r == (self@ == placeholder()),
    {
        let r = same_text(self.name.as_str(), "...") && same_text(self.path.as_str(), "")
            && !self.is_directory && !self.is_expanded && self.children.len() == 0;
        proof {
            if r {
                assert(self@.children =~= placeholder().children);
            } else {
                assert(placeholder().children.len() == 0);
            }
        }
        r
    }

    /// Whether the entry's children are the placeholder alone.
    pub fn awaits_listing(&self) -> (r: bool)
        ensures
            r == is_unlisted(self@.children),
    {
        let r = self.children.len() == 1 && self.children[0].is_placeholder();
        proof {
            if r {
                assert(self@.children =~= seq![placeholder()]);
            } else if is_unlisted(self@.children) {
                assert(self@.children.len() == 1);
                assert(self@.children[0] == placeholder());
            }
        }
        r
    }
}

/// The first entry with the given path, in pre-order.
pub fn find_entry<'a>(nodes: &'a Vec<FileItem>, path: &str) -> (r: Option<&'a FileItem>)
    ensures
        match r {
            Some(item) => find(forest_of(nodes@), path@) == Some(item@),
            None => find(forest_of(nodes@), path@) is None,
        },
    decreases nodes,
{
    let ghost forest = forest_of(nodes@);
    let mut i: usize = 0;
    while i < nodes.len()
        invariant
            i <= nodes.len(),
            forest == forest_of(nodes@),
            find(forest, path@) == find_from(forest, i as int, path@),
        decreases nodes.len() - i,
    {
        let item = &nodes[i];
        if same_text(item.path.as_str(), path) {
            return Some(item);
        }
        proof {
            lemma_children_view(*item);
        }
        match find_entry(&item.children, path) {
            Some(found) => {
                return Some(found);
            },
            None => {},
        }
        i = i + 1;
    }
    None
}

/// Replaces the children of the first entry with the given path, in
/// pre-order, by `fresh`. Hands `fresh` back where no entry has the path.
pub fn graft_entry(nodes: &mut Vec<FileItem>, path: &str, fresh: Vec<FileItem>) -> (unused: Option<
    Vec<FileItem>,
>)
    ensures
        forest_of(final(nodes)@) == graft(forest_of(old(nodes)@), path@, forest_of(fresh@)),
        unused is Some <==> find(forest_of(old(nodes)@), path@) is None,
        unused matches Some(given) ==> given == fresh,
    decreases forest_of(old(nodes)@),
{
    let ghost before = forest_of(nodes@);
    let ghost grown = forest_of(fresh@);
    let mut pending = fresh;
    let mut i: usize = 0;
    while i < nodes.len()
        invariant
            i <= nodes.len(),
            before == forest_of(old(nodes)@),
            before == forest_of(nodes@),
            pending == fresh,
            grown == forest_of(fresh@),
            find(before, path@) == find_from(before, i as int, path@),
            graft(before, path@, grown) == graft_from(before, i as int, path@, grown),
        decreases nodes.len() - i,
    {
        proof {
            lemma_children_view(nodes[i as int]);
        }
        if same_text(nodes[i].path.as_str(), path) {
            nodes[i].children = pending;
            proof {
                lemma_children_view(nodes[i as int]);
                assert(forest_of(nodes@) =~= graft_from(before, i as int, path@, grown));
            }
            return None;
        }
        let ghost kids = forest_of(nodes[i as int].children@);
        match graft_entry(&mut nodes[i].children, path, pending) {
            None => {
                proof {
                    lemma_children_view(nodes[i as int]);
                    assert(forest_of(nodes@) =~= graft_from(before, i as int, path@, grown));
                }
                return None;
            },
            Some(back) => {
                pending = back;
                proof {
                    lemma_graft_without_target(kids, 0, path@, grown);
                    lemma_children_view(nodes[i as int]);
                    assert(forest_of(nodes@) =~= before);
                }
            },
        }
        i = i + 1;
    }
    Some(pending)
}

} // verus!

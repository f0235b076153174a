//! Turning one level of a directory, as the caller read it, into tree entries:
//! hidden names are dropped, each directory is seeded with the placeholder, and
//! the entries are ordered directories first, then by name without regard to
//! case.

use vstd::prelude::*;
use vstd::seq_lib::to_multiset_build;
use crate::text::{
    lemma_bytes_before_irreflexive, lemma_bytes_before_total, lemma_bytes_before_transitive,
    lemma_bytes_not_after_transitive, lemma_encoding_injective, lowercase, starts_with_char,
    text_before, text_precedes, to_lowercase,
};
use crate::tree::{
    forest_of, forest_well_formed, is_unlisted, lemma_children_view, placeholder, well_formed,
    FileItem, FileNode,
};
use vstd::utf8::encode_utf8;

verus! {

/// One entry of a directory as the caller read it.
#[derive(Debug)]
pub struct ListedEntry {
    pub name: String,
    pub path: String,
    pub is_directory: bool,
}

/// A read entry as a mathematical value.
pub struct Listed {
    pub name: Seq<char>,
    pub path: Seq<char>,
    pub is_directory: bool,
}

impl View for ListedEntry {
    type V = Listed;

    open spec fn view(&self) -> Listed {
        Listed { name: self.name@, path: self.path@, is_directory: self.is_directory }
    }
}

/// The values that a list of read entries stands for, in order.
pub open spec fn listed_of(entries: Seq<ListedEntry>) -> Seq<Listed> {
    Seq::new(entries.len(), |i: int| entries[i]@)
}

/// A name is hidden when it begins with a dot.
pub open spec fn is_hidden(name: Seq<char>) -> bool {
    name.len() > 0 && name[0] == '.'
}

/// The node made for a read entry: a directory starts with the placeholder as
/// its only child, a file with none.
pub open spec fn seeded(entry: Listed) -> FileNode {
    FileNode {
        name: entry.name,
        path: entry.path,
        is_directory: entry.is_directory,
        is_expanded: false,
        children: if entry.is_directory {
            seq![placeholder()]
        } else {
            Seq::empty()
        },
    }
}

/// The nodes of the entries that are not hidden, in the order read.
pub open spec fn shown(entries: Seq<Listed>) -> Seq<FileNode>
    decreases entries.len(),
{
    if entries.len() == 0 {
        Seq::empty()
    } else if is_hidden(entries.last().name) {
        shown(entries.drop_last())
    } else {
        shown(entries.drop_last()).push(seeded(entries.last()))
    }
}

/// The order of a listing: a directory comes before a file; within a kind the
/// lowercase names decide.
pub open spec fn precedes(a: FileNode, b: FileNode) -> bool {
    if a.is_directory != b.is_directory {
        a.is_directory
    } else {
        text_before(lowercase(a.name), lowercase(b.name))
    }
}

/// No node comes before an earlier one.
pub open spec fn ordered(nodes: Seq<FileNode>) -> bool {
    forall|i: int, j: int| 0 <= i < j < nodes.len() ==> !precedes(nodes[j], nodes[i])
}

/// No file stands before a directory.
pub open spec fn directories_first(nodes: Seq<FileNode>) -> bool {
    forall|i: int, j: int|
        0 <= i < j < nodes.len() && nodes[j].is_directory ==> nodes[i].is_directory
}

/// Among directories, and among files, lowercase names never descend.
pub open spec fn names_ascend(nodes: Seq<FileNode>) -> bool {
    forall|i: int, j: int|
        0 <= i < j < nodes.len() && nodes[i].is_directory == nodes[j].is_directory
            ==> !text_before(lowercase(nodes[j].name), lowercase(nodes[i].name))
}

/// `sorted` with `node` placed behind the last node that does not come after
/// it.
pub open spec fn inserted(sorted: Seq<FileNode>, node: FileNode) -> Seq<FileNode>
    decreases sorted.len(),
{
    if sorted.len() == 0 {
        seq![node]
    } else if precedes(node, sorted.last()) {
        inserted(sorted.drop_last(), node).push(sorted.last())
    } else {
        sorted.push(node)
    }
}

/// The nodes in listing order; nodes that neither precedes the other keep the
/// order in which they came.
pub open spec fn in_order(nodes: Seq<FileNode>) -> Seq<FileNode>
    decreases nodes.len(),
{
    if nodes.len() == 0 {
        Seq::empty()
    } else {
        inserted(in_order(nodes.drop_last()), nodes.last())
    }
}

/// The listing shown for a directory whose entries were read as `entries`.
pub open spec fn listing(entries: Seq<Listed>) -> Seq<FileNode> {
    in_order(shown(entries))
}

/// What every node of a fresh listing satisfies.
pub open spec fn fresh(node: FileNode) -> bool {
    &&& !is_hidden(node.name)
    &&& !node.is_expanded
    &&& if node.is_directory {
        is_unlisted(node.children)
    } else {
        node.children.len() == 0
    }
}

/// `precedes` never holds both ways.
pub proof fn lemma_precedes_asymmetric(a: FileNode, b: FileNode)
    requires
        precedes(a, b),
    ensures
        !precedes(b, a),
{
    if a.is_directory == b.is_directory {
        let ka = encode_utf8(lowercase(a.name));
        let kb = encode_utf8(lowercase(b.name));
        if precedes(b, a) {
            lemma_bytes_before_transitive(ka, kb, ka);
            lemma_bytes_before_irreflexive(ka);
        }
    }
}

/// If `a` is not after `b` and `b` is not after `c`, then `a` is not after `c`.
pub proof fn lemma_not_after_transitive(a: FileNode, b: FileNode, c: FileNode)
    requires
        !precedes(b, a),
        !precedes(c, b),
    ensures
        !precedes(c, a),
{
    if a.is_directory == b.is_directory && b.is_directory == c.is_directory {
        lemma_bytes_not_after_transitive(
            encode_utf8(lowercase(a.name)),
            encode_utf8(lowercase(b.name)),
            encode_utf8(lowercase(c.name)),
        );
    }
}

/// Where `inserted` puts a node: behind every node that it does not precede
/// from the end backwards.
pub open spec fn slot(sorted: Seq<FileNode>, node: FileNode) -> int
    decreases sorted.len(),
{
    if sorted.len() == 0 {
        0
    } else if precedes(node, sorted.last()) {
        slot(sorted.drop_last(), node)
    } else {
        sorted.len() as int
    }
}

/// `inserted` is an insertion at the one position `k` such that the node
/// precedes everything from `k` on and does not precede the node before `k`.
pub proof fn lemma_inserted_at(sorted: Seq<FileNode>, node: FileNode, k: int)
    requires
        0 <= k <= sorted.len(),
        forall|j: int| k <= j < sorted.len() ==> precedes(node, #[trigger] sorted[j]),
        k == 0 || !precedes(node, sorted[k - 1]),
    ensures
        inserted(sorted, node) == sorted.insert(k, node),
    decreases sorted.len(),
{
    if sorted.len() == 0 {
        assert(seq![node] =~= sorted.insert(k, node));
    } else if k == sorted.len() {
        assert(sorted.push(node) =~= sorted.insert(k, node));
    } else {
        let front = sorted.drop_last();
        assert(precedes(node, sorted[sorted.len() - 1]));
        assert forall|j: int| k <= j < front.len() implies precedes(node, #[trigger] front[j]) by {
            assert(front[j] == sorted[j]);
        }
        lemma_inserted_at(front, node, k);
        assert(front.insert(k, node).push(sorted.last()) =~= sorted.insert(k, node));
    }
}

/// The position that `slot` names meets the conditions of `lemma_inserted_at`.
pub proof fn lemma_slot(sorted: Seq<FileNode>, node: FileNode)
    ensures
        0 <= slot(sorted, node) <= sorted.len(),
        forall|j: int|
            slot(sorted, node) <= j < sorted.len() ==> precedes(node, #[trigger] sorted[j]),
        slot(sorted, node) == 0 || !precedes(node, sorted[slot(sorted, node) - 1]),
        inserted(sorted, node) == sorted.insert(slot(sorted, node), node),
    decreases sorted.len(),
{
    if sorted.len() > 0 && precedes(node, sorted.last()) {
        let front = sorted.drop_last();
        lemma_slot(front, node);
        let k = slot(front, node);
        assert forall|j: int| k <= j < sorted.len() implies precedes(node, #[trigger] sorted[j]) by {
            if j < front.len() {
                assert(front[j] == sorted[j]);
            }
        }
        if k > 0 {
            assert(front[k - 1] == sorted[k - 1]);
        }
    }
    lemma_inserted_at(sorted, node, slot(sorted, node));
}

/// Inserting into an ordered sequence leaves it ordered.
pub proof fn lemma_inserted_ordered(sorted: Seq<FileNode>, node: FileNode)
    requires
        ordered(sorted),
    ensures
        ordered(inserted(sorted, node)),
{
    lemma_slot(sorted, node);
    let k = slot(sorted, node);
    let after = sorted.insert(k, node);
    assert forall|i: int, j: int| 0 <= i < j < after.len() implies !precedes(
        after[j],
        after[i],
    ) by {
        if j < k {
            assert(after[i] == sorted[i] && after[j] == sorted[j]);
        } else if j == k {
            assert(after[i] == sorted[i]);
            if i < k - 1 {
                lemma_not_after_transitive(sorted[i], sorted[k - 1], node);
            }
        } else if i == k {
            assert(after[j] == sorted[j - 1]);
            lemma_precedes_asymmetric(node, sorted[j - 1]);
        } else if i < k {
            assert(after[i] == sorted[i] && after[j] == sorted[j - 1]);
        } else {
            assert(after[i] == sorted[i - 1] && after[j] == sorted[j - 1]);
        }
    }
}

/// A listing is ordered: no node comes before an earlier one.
pub proof fn lemma_in_order_ordered(nodes: Seq<FileNode>)
    ensures
        ordered(in_order(nodes)),
    decreases nodes.len(),
{
    if nodes.len() > 0 {
        lemma_in_order_ordered(nodes.drop_last());
        lemma_inserted_ordered(in_order(nodes.drop_last()), nodes.last());
    }
}

/// An ordered sequence has its directories first and, within each kind, names
/// that never descend.
pub proof fn lemma_ordered_means(nodes: Seq<FileNode>)
    requires
        ordered(nodes),
    ensures
        directories_first(nodes),
        names_ascend(nodes),
{
    assert forall|i: int, j: int|
        0 <= i < j < nodes.len() && nodes[j].is_directory implies nodes[i].is_directory by {
        assert(!precedes(nodes[j], nodes[i]));
    }
    assert forall|i: int, j: int|
        0 <= i < j < nodes.len() && nodes[i].is_directory
            == nodes[j].is_directory implies !text_before(
        lowercase(nodes[j].name),
        lowercase(nodes[i].name),
    ) by {
        assert(!precedes(nodes[j], nodes[i]));
    }
}

/// Whatever was read, the listing has its directories before its files, and
/// within each kind lowercase names that never descend.
pub proof fn lemma_listing_sorted(entries: Seq<Listed>)
    ensures
        ordered(listing(entries)),
        directories_first(listing(entries)),
        names_ascend(listing(entries)),
{
    lemma_in_order_ordered(shown(entries));
    lemma_ordered_means(listing(entries));
}

/// Inserting adds the node and nothing else.
pub proof fn lemma_inserted_multiset(sorted: Seq<FileNode>, node: FileNode)
    ensures
        inserted(sorted, node).to_multiset() == sorted.to_multiset().insert(node),
        inserted(sorted, node).len() == sorted.len() + 1,
    decreases sorted.len(),
{
    if sorted.len() == 0 {
        assert(seq![node] =~= sorted.push(node));
        to_multiset_build(sorted, node);
    } else if precedes(node, sorted.last()) {
        let front = sorted.drop_last();
        lemma_inserted_multiset(front, node);
        to_multiset_build(inserted(front, node), sorted.last());
        to_multiset_build(front, sorted.last());
        assert(front.push(sorted.last()) =~= sorted);
        assert(front.to_multiset().insert(node).insert(sorted.last()) =~= front.to_multiset().insert(
            sorted.last(),
        ).insert(node));
    } else {
        to_multiset_build(sorted, node);
    }
}

/// Ordering keeps every node, as often as it occurred.
pub proof fn lemma_in_order_multiset(nodes: Seq<FileNode>)
    ensures
        in_order(nodes).to_multiset() == nodes.to_multiset(),
        in_order(nodes).len() == nodes.len(),
    decreases nodes.len(),
{
    if nodes.len() == 0 {
        assert(in_order(nodes) =~= nodes);
    } else {
        let front = nodes.drop_last();
        lemma_in_order_multiset(front);
        lemma_inserted_multiset(in_order(front), nodes.last());
        to_multiset_build(front, nodes.last());
        assert(front.push(nodes.last()) =~= nodes);
    }
}

/// Two nodes tie when neither precedes the other.
pub open spec fn ties(a: FileNode, b: FileNode) -> bool {
    !precedes(a, b) && !precedes(b, a)
}

/// The nodes that tie with `with`, in their order.
pub open spec fn tied(nodes: Seq<FileNode>, with: FileNode) -> Seq<FileNode> {
    nodes.filter(|node: FileNode| ties(node, with))
}

/// Nodes tie exactly when they are of one kind and their lowercase names are
/// the same.
pub proof fn lemma_ties_means(a: FileNode, b: FileNode)
    ensures
        ties(a, b) <==> a.is_directory == b.is_directory && lowercase(a.name) == lowercase(b.name),
{
    let ka = encode_utf8(lowercase(a.name));
    let kb = encode_utf8(lowercase(b.name));
    lemma_bytes_before_total(ka, kb);
    lemma_bytes_before_irreflexive(ka);
    if ka == kb {
        lemma_encoding_injective(lowercase(a.name), lowercase(b.name));
    }
}

proof fn lemma_inserted_tied(sorted: Seq<FileNode>, node: FileNode, with: FileNode)
    ensures
        tied(inserted(sorted, node), with) == if ties(node, with) {
            tied(sorted, with).push(node)
        } else {
            tied(sorted, with)
        },
    decreases sorted.len(),
{
    reveal(Seq::filter);
    let pred = |n: FileNode| ties(n, with);
    if sorted.len() == 0 {
        assert(seq![node] =~= sorted.push(node));
        assert(sorted.push(node).drop_last() =~= sorted);
    } else if precedes(node, sorted.last()) {
        let front = sorted.drop_last();
        lemma_inserted_tied(front, node, with);
        let grown = inserted(front, node);
        assert(grown.push(sorted.last()).drop_last() =~= grown);
        if ties(node, with) && ties(sorted.last(), with) {
            lemma_ties_means(node, with);
            lemma_ties_means(sorted.last(), with);
            lemma_ties_means(node, sorted.last());
        }
    } else {
        assert(sorted.push(node).drop_last() =~= sorted);
    }
}

/// A listing is stable: the nodes that tie with a given node stand in it in
/// the order in which they were read.
pub proof fn lemma_in_order_stable(nodes: Seq<FileNode>, with: FileNode)
    ensures
        tied(in_order(nodes), with) == tied(nodes, with),
    decreases nodes.len(),
{
    reveal(Seq::filter);
    if nodes.len() == 0 {
    } else {
        lemma_in_order_stable(nodes.drop_last(), with);
        lemma_inserted_tied(in_order(nodes.drop_last()), nodes.last(), with);
    }
}

/// Every node of a listing is fresh.
pub proof fn lemma_listing_fresh(entries: Seq<Listed>)
    ensures
        forall|i: int| 0 <= i < listing(entries).len() ==> fresh(#[trigger] listing(entries)[i]),
{
    lemma_shown_fresh(entries);
    lemma_in_order_keeps(shown(entries));
}

proof fn lemma_shown_fresh(entries: Seq<Listed>)
    ensures
        forall|i: int| 0 <= i < shown(entries).len() ==> fresh(#[trigger] shown(entries)[i]),
    decreases entries.len(),
{
    if entries.len() > 0 {
        let front = shown(entries.drop_last());
        lemma_shown_fresh(entries.drop_last());
        if !is_hidden(entries.last().name) {
            let node = seeded(entries.last());
            assert(fresh(node));
            assert forall|i: int| 0 <= i < shown(entries).len() implies fresh(
                #[trigger] shown(entries)[i],
            ) by {
                if i < front.len() {
                    assert(shown(entries)[i] == front[i]);
                }
            }
        }
    }
}

proof fn lemma_in_order_keeps(nodes: Seq<FileNode>)
    requires
        forall|i: int| 0 <= i < nodes.len() ==> fresh(#[trigger] nodes[i]),
    ensures
        forall|i: int| 0 <= i < in_order(nodes).len() ==> fresh(#[trigger] in_order(nodes)[i]),
    decreases nodes.len(),
{
    if nodes.len() > 0 {
        let front = nodes.drop_last();
        assert forall|i: int| 0 <= i < front.len() implies fresh(#[trigger] front[i]) by {
            assert(front[i] == nodes[i]);
        }
        lemma_in_order_keeps(front);
        let sorted = in_order(front);
        lemma_slot(sorted, nodes.last());
        let k = slot(sorted, nodes.last());
        let after = sorted.insert(k, nodes.last());
        assert forall|i: int| 0 <= i < after.len() implies fresh(#[trigger] after[i]) by {
            if i < k {
                assert(after[i] == sorted[i]);
            } else if i > k {
                assert(after[i] == sorted[i - 1]);
            }
        }
    }
}

/// A fresh node is well formed and is not the placeholder.
pub proof fn lemma_fresh_well_formed(node: FileNode)
    requires
        fresh(node),
    ensures
        well_formed(node),
        node != placeholder(),
{
    reveal_strlit("...");
}

/// A listing is never the placeholder alone, its nodes are well formed, and
/// none of them is the placeholder.
pub proof fn lemma_listing_well_formed(entries: Seq<Listed>)
    ensures
        !is_unlisted(listing(entries)),
        forest_well_formed(listing(entries)),
        forall|i: int|
            0 <= i < listing(entries).len() ==> #[trigger] listing(entries)[i] != placeholder(),
{
    lemma_listing_fresh(entries);
    let nodes = listing(entries);
    assert forall|i: int| 0 <= i < nodes.len() implies well_formed(#[trigger] nodes[i])
        && nodes[i] != placeholder() by {
        lemma_fresh_well_formed(nodes[i]);
    }
    if is_unlisted(nodes) {
        assert(nodes[0] == placeholder());
    }
}

/// Reads nothing itself: arranges what the caller read.
pub struct DirectoryLoader;

impl DirectoryLoader {
    /// Whether an entry of this name is left out of listings.
    pub fn is_hidden(name: &str) -> (r: bool)
        ensures
            r == is_hidden(name@),
    {
        starts_with_char(name, '.')
    }

    /// The tree entry for a read entry.
    pub fn seed(entry: &ListedEntry) -> (r: FileItem)
        ensures
            r@ == seeded(entry@),
    {
        let mut children: Vec<FileItem> = Vec::new();
        if entry.is_directory {
            children.push(FileItem::placeholder());
        }
        let r = FileItem {
            name: entry.name.clone(),
            path: entry.path.clone(),
            is_directory: entry.is_directory,
            is_expanded: false,
            children,
        };
        proof {
            lemma_children_view(r);
            assert(r@.children =~= seeded(entry@).children);
        }
        r
    }

    /// Whether `a` is listed before `b`.
    pub fn comes_before(a: &FileItem, b: &FileItem) -> (r: bool)
        ensures
            r == precedes(a@, b@),
    {
        if a.is_directory != b.is_directory {
            a.is_directory
        } else {
            let ka = to_lowercase(a.name.as_str());
            let kb = to_lowercase(b.name.as_str());
            text_precedes(ka.as_str(), kb.as_str())
        }
    }

    /// Puts `item` into the ordered `sorted`, behind the last entry that does
    /// not come after it.
    pub fn insert_ordered(sorted: &mut Vec<FileItem>, item: FileItem)
        ensures
            forest_of(final(sorted)@) == inserted(forest_of(old(sorted)@), item@),
    {
        let ghost before = forest_of(sorted@);
        let mut k: usize = sorted.len();
        while k > 0 && Self::comes_before(&item, &sorted[k - 1])
            invariant
                k <= sorted.len(),
                *sorted == *old(sorted),
                before == forest_of(sorted@),
                forall|j: int| k <= j < before.len() ==> precedes(item@, #[trigger] before[j]),
            decreases k,
        {
            k = k - 1;
        }
        proof {
            lemma_inserted_at(before, item@, k as int);
        }
        sorted.insert(k, item);
        assert(forest_of(sorted@) =~= before.insert(k as int, item@));
    }

    /// The listing for the entries read from one directory. An unreadable
    /// directory is handed in as no entries and lists as nothing.
    pub fn arrange(entries: &Vec<ListedEntry>) -> (r: Vec<FileItem>)
        ensures
            forest_of(r@) == listing(listed_of(entries@)),
            directories_first(forest_of(r@)),
            names_ascend(forest_of(r@)),
            forest_of(r@).to_multiset() == shown(listed_of(entries@)).to_multiset(),
    {
        let ghost all = listed_of(entries@);
        let mut out: Vec<FileItem> = Vec::new();
        let mut i: usize = 0;
        assert(all.take(0) =~= Seq::<Listed>::empty());
        assert(forest_of(out@) =~= Seq::<FileNode>::empty());
        while i < entries.len()
            invariant
                i <= entries.len(),
                all == listed_of(entries@),
                forest_of(out@) == listing(all.take(i as int)),
            decreases entries.len() - i,
        {
            let entry = &entries[i];
            proof {
                let upto = all.take(i + 1);
                assert(upto.drop_last() =~= all.take(i as int));
                assert(upto.last() == entry@);
                if !is_hidden(entry@.name) {
                    let nodes = shown(all.take(i as int));
                    assert(shown(upto) == nodes.push(seeded(entry@)));
                    assert(shown(upto).drop_last() =~= nodes);
                }
            }
            if !Self::is_hidden(entry.name.as_str()) {
                Self::insert_ordered(&mut out, Self::seed(entry));
            }
            i = i + 1;
        }
        proof {
            assert(all.take(i as int) =~= all);
            lemma_listing_sorted(all);
            lemma_in_order_multiset(shown(all));
        }
        out
    }
}

} // verus!

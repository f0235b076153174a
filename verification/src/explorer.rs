//! An explorer tab: one tree, the set of paths whose directories are shown
//! open, and the toggle that expands or collapses a directory.
//!
//! Listing a directory is the caller's work. `toggle` says when a listing is
//! needed and changes nothing then; `expand_with` takes the listing and opens
//! the directory.

use vstd::prelude::*;
use vstd::hash_set::StringHashSet;
use crate::loader::{listed_of, listing, lemma_listing_well_formed, DirectoryLoader, Listed, ListedEntry};
use crate::tree::{
    find, find_entry, find_from, forest_of, forest_well_formed, graft, graft_entry, is_unlisted,
    lemma_find_after_graft, lemma_find_other_after_graft, lemma_graft_not_unlisted,
    lemma_graft_well_formed, placeholder, FileItem, FileNode,
};

verus! {

/// The paths of the directories that are shown open.
pub struct PathSet {
    paths: StringHashSet,
}

impl View for PathSet {
    type V = Set<Seq<char>>;

    closed spec fn view(&self) -> Set<Seq<char>> {
        self.paths@
    }
}

impl PathSet {
    /// The empty set.
    pub fn new() -> (r: Self)
        ensures
            r@ == Set::<Seq<char>>::empty(),
    {
        PathSet { paths: StringHashSet::new() }
    }

    /// Whether `path` is in the set.
    pub fn contains(&self, path: &str) -> (r: bool)
        ensures
            r == self@.contains(path@),
    {
        self.paths.contains(path)
    }

    /// Adds `path`; says whether it was new.
    pub fn insert(&mut self, path: &str) -> (added: bool)
        ensures
            final(self)@ == old(self)@.insert(path@),
            added == !old(self)@.contains(path@),
    {
        self.paths.insert(path.to_owned())
    }

    /// Takes `path` out; says whether it was there.
    pub fn remove(&mut self, path: &str) -> (removed: bool)
        ensures
            final(self)@ == old(self)@.remove(path@),
            removed == old(self)@.contains(path@),
    {
        self.paths.remove(path)
    }

    /// The number of paths in the set.
    pub fn len(&self) -> (r: usize)
        ensures
            r == self@.len(),
    {
        self.paths.len()
    }
}

/// What a toggle did, or asks for.
#[derive(Clone, Copy, PartialEq, Eq, Structural, Debug)]
pub enum ToggleOutcome {
    /// The tree has no entry with the path, or the first it has is a file;
    /// nothing changed.
    Ignored,
    /// The directory was open and is now closed. Its children are kept.
    Collapsed,
    /// The directory was closed, had been listed before, and is now open.
    Expanded,
    /// The directory was never listed. Nothing changed: list it and call
    /// `expand_with`.
    NeedsListing,
}

/// A named view of one opened folder.
pub struct ExplorerTab {
    pub name: String,
    /// The folder that the tab was opened on.
    pub path: String,
    pub file_tree: Vec<FileItem>,
    pub is_active: bool,
    pub expanded_paths: PathSet,
}

/// A tab as a mathematical value.
pub struct TabState {
    pub name: Seq<char>,
    pub path: Seq<char>,
    pub tree: Seq<FileNode>,
    pub is_active: bool,
    pub expanded: Set<Seq<char>>,
}

impl View for ExplorerTab {
    type V = TabState;

    open spec fn view(&self) -> TabState {
        TabState {
            name: self.name@,
            path: self.path@,
            tree: forest_of(self.file_tree@),
            is_active: self.is_active,
            expanded: self.expanded_paths@,
        }
    }
}

/// The name that every tab carries.
pub open spec fn tab_title() -> Seq<char> {
    "文件资源管理器"@
}

impl TabState {
    /// The tab as it is right after its folder was opened and listed.
    pub open spec fn opened(path: Seq<char>, entries: Seq<Listed>) -> TabState {
        TabState {
            name: tab_title(),
            path,
            tree: listing(entries),
            is_active: true,
            expanded: Set::empty(),
        }
    }

    /// What `toggle` answers for `path`.
    pub open spec fn toggle_outcome(self, path: Seq<char>) -> ToggleOutcome {
        match find(self.tree, path) {
            None => ToggleOutcome::Ignored,
            Some(node) => if !node.is_directory {
                ToggleOutcome::Ignored
            } else if self.expanded.contains(path) {
                ToggleOutcome::Collapsed
            } else if is_unlisted(node.children) {
                ToggleOutcome::NeedsListing
            } else {
                ToggleOutcome::Expanded
            },
        }
    }

    /// The tab after `toggle` on `path`.
    pub open spec fn toggled(self, path: Seq<char>) -> TabState {
        match self.toggle_outcome(path) {
            ToggleOutcome::Collapsed => TabState { expanded: self.expanded.remove(path), ..self },
            ToggleOutcome::Expanded => TabState { expanded: self.expanded.insert(path), ..self },
            _ => self,
        }
    }

    /// The tab after `expand_with` on `path` with the entries read from it.
    pub open spec fn expanded_with(self, path: Seq<char>, entries: Seq<Listed>) -> TabState {
        if self.toggle_outcome(path) == ToggleOutcome::NeedsListing {
            TabState {
                tree: graft(self.tree, path, listing(entries)),
                expanded: self.expanded.insert(path),
                ..self
            }
        } else {
            self
        }
    }

    /// Whether a listing can go in without disturbing the open paths: no open
    /// path is empty, and none is the path of a node of the listing.
    pub open spec fn admits(self, entries: Seq<Listed>) -> bool {
        forall|path: Seq<char>| #[trigger]
            self.expanded.contains(path) ==> path.len() > 0 && find(listing(entries), path)
                is None
    }

    /// The shape a tab keeps: its nodes are well formed, no root is the
    /// placeholder, and every open path names a directory that was listed.
    pub open spec fn well_formed(self) -> bool {
        &&& forest_well_formed(self.tree)
        &&& forall|i: int| 0 <= i < self.tree.len() ==> #[trigger] self.tree[i] != placeholder()
        &&& forall|path: Seq<char>| #[trigger]
            self.expanded.contains(path) ==> (find(self.tree, path) matches Some(node)
                && node.is_directory && !is_unlisted(node.children))
    }
}

impl ExplorerTab {
    /// The tab for a folder that was just opened, with the entries read from
    /// it. It is active and nothing in it is open.
    pub fn new(path: &str, entries: &Vec<ListedEntry>) -> (r: Self)
        ensures
            r@ == TabState::opened(path@, listed_of(entries@)),
            r@.well_formed(),
    {
        proof {
            lemma_listing_well_formed(listed_of(entries@));
        }
        ExplorerTab {
            name: "文件资源管理器".to_owned(),
            path: path.to_owned(),
            file_tree: DirectoryLoader::arrange(entries),
            is_active: true,
            expanded_paths: PathSet::new(),
        }
    }

    /// Whether the directory at `path` is shown open.
    pub fn is_open(&self, path: &str) -> (r: bool)
        ensures
            r == self@.expanded.contains(path@),
    {
        self.expanded_paths.contains(path)
    }

    /// Expands or collapses the directory at `path`.
    ///
    /// An open directory is closed, and keeps its children. A closed one that
    /// was listed before is opened as it is. For one never listed nothing
    /// changes and `NeedsListing` comes back. A path that no directory of the
    /// tree has is ignored.
    pub fn toggle(&mut self, path: &str) -> (outcome: ToggleOutcome)
        ensures
            outcome == old(self)@.toggle_outcome(path@),
            final(self)@ == old(self)@.toggled(path@),
            old(self)@.well_formed() ==> final(self)@.well_formed(),
    {
        let (is_directory, unlisted) = match find_entry(&self.file_tree, path) {
            None => {
                return ToggleOutcome::Ignored;
            },
            Some(item) => (item.is_directory, item.awaits_listing()),
        };
        if !is_directory {
            ToggleOutcome::Ignored
        } else if self.expanded_paths.contains(path) {
            self.expanded_paths.remove(path);
            ToggleOutcome::Collapsed
        } else if unlisted {
            ToggleOutcome::NeedsListing
        } else {
            self.expanded_paths.insert(path);
            ToggleOutcome::Expanded
        }
    }

    /// Opens the never-listed directory at `path` with the entries read from
    /// it: they become its children, arranged as a listing, and the path
    /// counts as open. Says whether it did so. Where `toggle` would not answer
    /// `NeedsListing` for `path`, nothing changes: children once listed are
    /// never replaced.
    pub fn expand_with(&mut self, path: &str, entries: &Vec<ListedEntry>) -> (done: bool)
        ensures
            done == (old(self)@.toggle_outcome(path@) == ToggleOutcome::NeedsListing),
            final(self)@ == old(self)@.expanded_with(path@, listed_of(entries@)),
            old(self)@.well_formed() && old(self)@.admits(listed_of(entries@))
                ==> final(self)@.well_formed(),
    {
        proof {
            if old(self)@.well_formed() && old(self)@.admits(listed_of(entries@)) {
                lemma_expand_keeps_shape(old(self)@, path@, listed_of(entries@));
            }
        }
        let wanted = match find_entry(&self.file_tree, path) {
            None => false,
            Some(item) => item.is_directory && !self.expanded_paths.contains(path)
                && item.awaits_listing(),
        };
        if !wanted {
            return false;
        }
        let children = DirectoryLoader::arrange(entries);
        let unused = graft_entry(&mut self.file_tree, path, children);
        self.expanded_paths.insert(path);
        true
    }
}

/// Opening a directory with its listing keeps a tab well formed, provided the
/// tab admits the listing.
pub proof fn lemma_expand_keeps_shape(tab: TabState, path: Seq<char>, entries: Seq<Listed>)
    requires
        tab.well_formed(),
        tab.admits(entries),
    ensures
        tab.expanded_with(path, entries).well_formed(),
{
    if tab.toggle_outcome(path) == ToggleOutcome::NeedsListing {
        let after = tab.expanded_with(path, entries);
        let fresh = listing(entries);
        let target = find(tab.tree, path)->0;
        lemma_listing_well_formed(entries);
        lemma_graft_well_formed(tab.tree, 0, path, fresh);
        lemma_find_after_graft(tab.tree, 0, path, fresh);
        assert forall|other: Seq<char>| #[trigger]
            after.expanded.contains(other) implies (find(after.tree, other) matches Some(node)
            && node.is_directory && !is_unlisted(node.children)) by {
            if other != path {
                assert(tab.expanded.contains(other));
                assert(find_from(target.children, 0, other) is None) by {
                    reveal_strlit("");
                    assert(target.children[0] == placeholder());
                    assert(find_from(target.children, 1, other) is None);
                    assert(find_from(placeholder().children, 0, other) is None);
                }
                lemma_find_other_after_graft(tab.tree, 0, path, fresh, other);
                let node = find(tab.tree, other)->0;
                let met = find(after.tree, other)->0;
                if met.children != node.children {
                    lemma_graft_not_unlisted(node.children, path, fresh);
                }
            }
        }
    }
}

/// Expanding a never-listed directory, collapsing it and expanding it again
/// asks for one listing only: the second expansion answers `Expanded`, not
/// `NeedsListing`, and the directory's children are then still the listing it
/// got the first time. Collapsing and expanding change nothing but the set of
/// open paths.
pub proof fn lemma_listed_once(tab: TabState, path: Seq<char>, entries: Seq<Listed>)
    requires
        tab.toggle_outcome(path) == ToggleOutcome::NeedsListing,
    ensures
        ({
            let first = tab.expanded_with(path, entries);
            let closed = first.toggled(path);
            let again = closed.toggled(path);
            &&& tab.toggled(path) == tab
            &&& first.toggle_outcome(path) == ToggleOutcome::Collapsed
            &&& closed.toggle_outcome(path) == ToggleOutcome::Expanded
            &&& closed.tree == first.tree
            &&& again.tree == first.tree
            &&& again.expanded == first.expanded
            &&& find(again.tree, path) matches Some(node) && node.children == listing(entries)
        }),
{
    let first = tab.expanded_with(path, entries);
    lemma_find_after_graft(tab.tree, 0, path, listing(entries));
    lemma_listing_well_formed(entries);
    let closed = first.toggled(path);
    assert(first.expanded.contains(path));
    assert(closed.expanded == first.expanded.remove(path));
    assert(!closed.expanded.contains(path));
    let again = closed.toggled(path);
    assert(again.expanded =~= first.expanded);
}

} // verus!

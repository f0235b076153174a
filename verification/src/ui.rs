//! What is to be drawn, worked out from the state: the headers of the menu
//! bar and the rows of a tab's tree. Drawing itself is the caller's.

use vstd::prelude::*;
use crate::explorer::{ExplorerTab, PathSet, TabState};
use crate::menu::MenuType;
use crate::text::join;
use crate::tree::{forest_of, lemma_children_view, FileItem, FileNode};

verus! {

/// One header of the menu bar.
#[derive(Debug)]
pub struct MenuHeader {
    pub menu: MenuType,
    pub label: String,
}

/// The label under which a menu appears in the menu bar.
pub open spec fn header_label(menu: MenuType) -> Seq<char> {
    match menu {
        MenuType::File => "文件(F)"@,
        MenuType::Edit => "编辑(E)"@,
        MenuType::Navigate => "导航(N)"@,
        MenuType::Search => "搜索(A)"@,
        MenuType::SqlEditor => "SQL编辑器"@,
        MenuType::Database => "数据库(D)"@,
        MenuType::Window => "窗口(W)"@,
        MenuType::Help => "帮助(H)"@,
    }
}

/// The menus in the order of the menu bar.
pub open spec fn bar_order() -> Seq<MenuType> {
    seq![
        MenuType::File,
        MenuType::Edit,
        MenuType::Navigate,
        MenuType::Search,
        MenuType::SqlEditor,
        MenuType::Database,
        MenuType::Window,
        MenuType::Help,
    ]
}

/// One line of a drawn tree.
#[derive(Debug)]
pub struct TreeRow {
    /// How many directories the entry lies below the roots.
    pub depth: usize,
    pub name: String,
    pub path: String,
    pub is_directory: bool,
    /// Whether the entry is a directory shown open.
    pub is_open: bool,
}

/// A row as a mathematical value.
pub struct Row {
    pub depth: usize,
    pub name: Seq<char>,
    pub path: Seq<char>,
    pub is_directory: bool,
    pub is_open: bool,
}

impl View for TreeRow {
    type V = Row;

    open spec fn view(&self) -> Row {
        Row {
            depth: self.depth,
            name: self.name@,
            path: self.path@,
            is_directory: self.is_directory,
            is_open: self.is_open,
        }
    }
}

/// The rows that a list of drawn lines stands for, in order.
pub open spec fn rows_of(rows: Seq<TreeRow>) -> Seq<Row> {
    Seq::new(rows.len(), |i: int| rows[i]@)
}

/// One level below `depth`. The count stops at the largest `usize`.
pub open spec fn below(depth: usize) -> usize {
    if depth < usize::MAX {
        (depth + 1) as usize
    } else {
        depth
    }
}

/// Whether a node is drawn open: it is a directory and its path is among the
/// open ones. Children that a closed directory holds from an earlier listing
/// do not count.
pub open spec fn drawn_open(node: FileNode, open: Set<Seq<char>>) -> bool {
    node.is_directory && open.contains(node.path)
}

/// The row of a node at `depth`.
pub open spec fn row_for(node: FileNode, open: Set<Seq<char>>, depth: usize) -> Row {
    Row {
        depth,
        name: node.name,
        path: node.path,
        is_directory: node.is_directory,
        is_open: drawn_open(node, open),
    }
}

/// The rows of `forest[start..]` from top to bottom: each node's row, then,
/// only where the node is drawn open, the rows of its children one level
/// deeper, then the later siblings.
pub open spec fn rows_from(forest: Seq<FileNode>, start: int, open: Set<Seq<char>>, depth: usize) -> Seq<
    Row,
>
    decreases forest, forest.len() - start,
{
    if start < 0 || start >= forest.len() {
        Seq::empty()
    } else {
        let node = forest[start];
        let inner = if drawn_open(node, open) {
            rows_from(node.children, 0, open, below(depth))
        } else {
            Seq::empty()
        };
        seq![row_for(node, open, depth)] + inner + rows_from(forest, start + 1, open, depth)
    }
}

/// The rows of a tab's tree.
pub open spec fn tab_rows(tab: TabState) -> Seq<Row> {
    rows_from(tab.tree, 0, tab.expanded, 0)
}

/// The line above a tab's tree: its name, a dash, its folder.
pub open spec fn tab_heading(tab: TabState) -> Seq<char> {
    tab.name + " - "@ + tab.path
}

/// Works out what is to be drawn.
pub struct UIRenderer;

impl UIRenderer {
    /// The headers of the menu bar from left to right.
    pub fn menu_headers() -> (r: Vec<MenuHeader>)
        ensures
            r@.len() == bar_order().len(),
            forall|i: int|
                0 <= i < r@.len() ==> (#[trigger] r@[i]).menu == bar_order()[i] && r@[i].label@
                    == header_label(bar_order()[i]),
    {
        vec![
            MenuHeader { menu: MenuType::File, label: "文件(F)".to_owned() },
            MenuHeader { menu: MenuType::Edit, label: "编辑(E)".to_owned() },
            MenuHeader { menu: MenuType::Navigate, label: "导航(N)".to_owned() },
            MenuHeader { menu: MenuType::Search, label: "搜索(A)".to_owned() },
            MenuHeader { menu: MenuType::SqlEditor, label: "SQL编辑器".to_owned() },
            MenuHeader { menu: MenuType::Database, label: "数据库(D)".to_owned() },
            MenuHeader { menu: MenuType::Window, label: "窗口(W)".to_owned() },
            MenuHeader { menu: MenuType::Help, label: "帮助(H)".to_owned() },
        ]
    }

    /// The line above a tab's tree.
    pub fn tab_heading(tab: &ExplorerTab) -> (r: String)
        ensures
            r@ == tab_heading(tab@),
    {
        join(tab.name.as_str(), " - ").concat(tab.path.as_str())
    }

    fn next_depth(depth: usize) -> (r: usize)
        ensures
            r == below(depth),
    {
        if depth < usize::MAX {
            depth + 1
        } else {
            depth
        }
    }

    fn collect_rows(nodes: &Vec<FileItem>, open: &PathSet, depth: usize, out: &mut Vec<TreeRow>)
        ensures
            rows_of(final(out)@) == rows_of(old(out)@) + rows_from(
                forest_of(nodes@),
                0,
                open@,
                depth,
            ),
        decreases nodes,
    {
        let ghost forest = forest_of(nodes@);
        let ghost whole = rows_of(out@) + rows_from(forest, 0, open@, depth);
        let mut i: usize = 0;
        while i < nodes.len()
            invariant
                i <= nodes.len(),
                forest == forest_of(nodes@),
                whole == rows_of(out@) + rows_from(forest, i as int, open@, depth),
            decreases nodes.len() - i,
        {
            let item = &nodes[i];
            let is_open = item.is_directory && open.contains(item.path.as_str());
            let ghost head = rows_of(out@);
            out.push(
                TreeRow {
                    depth,
                    name: item.name.clone(),
                    path: item.path.clone(),
                    is_directory: item.is_directory,
                    is_open,
                },
            );
            assert(rows_of(out@) =~= head + seq![row_for(item@, open@, depth)]);
            let ghost inner = if is_open {
                rows_from(item@.children, 0, open@, below(depth))
            } else {
                Seq::empty()
            };
            if is_open {
                proof {
                    lemma_children_view(*item);
                }
                Self::collect_rows(&item.children, open, Self::next_depth(depth), out);
            }
            assert(rows_of(out@) =~= head + seq![row_for(item@, open@, depth)] + inner);
            assert(whole =~= rows_of(out@) + rows_from(forest, i + 1, open@, depth));
            i = i + 1;
        }
        assert(whole =~= rows_of(out@));
    }

    /// The rows of a tab's tree from top to bottom. The children of a
    /// directory appear only while the directory is open.
    pub fn file_rows(tab: &ExplorerTab) -> (r: Vec<TreeRow>)
        ensures
            rows_of(r@) == tab_rows(tab@),
    {
        let mut out: Vec<TreeRow> = Vec::new();
        assert(rows_of(out@) =~= Seq::<Row>::empty());
        Self::collect_rows(&tab.file_tree, &tab.expanded_paths, 0, &mut out);
        assert(rows_of(out@) =~= tab_rows(tab@));
        out
    }
}

} // verus!

//! The menu registry: which menus exist and the ordered items each one holds.

use vstd::prelude::*;
use crate::text::same_text;

verus! {

/// The menus of the top bar, in the order in which they are shown.
#[derive(Clone, Copy, PartialEq, Eq, Structural, Debug, Hash)]
pub enum MenuType {
    File,
    Edit,
    Navigate,
    Search,
    SqlEditor,
    Database,
    Window,
    Help,
}

impl MenuType {
    /// Position of the menu in the top bar, counted from zero.
    pub open spec fn ordinal(self) -> int {
        match self {
            MenuType::File => 0,
            MenuType::Edit => 1,
            MenuType::Navigate => 2,
            MenuType::Search => 3,
            MenuType::SqlEditor => 4,
            MenuType::Database => 5,
            MenuType::Window => 6,
            MenuType::Help => 7,
        }
    }

    /// Position of the menu in the top bar, counted from zero.
    pub fn index(self) -> (r: usize)
        ensures
            r == self.ordinal(),
            r < 8,
    {
        match self {
            MenuType::File => 0,
            MenuType::Edit => 1,
            MenuType::Navigate => 2,
            MenuType::Search => 3,
            MenuType::SqlEditor => 4,
            MenuType::Database => 5,
            MenuType::Window => 6,
            MenuType::Help => 7,
        }
    }
}

/// One line of a menu.
#[derive(PartialEq, Debug)]
pub struct MenuItem {
    pub label: String,
    pub shortcut: Option<String>,
    pub action: String,
    pub enabled: bool,
    pub submenu: Option<Vec<MenuItem>>,
}

/// What a [`MenuItem`] holds, as mathematical values.
pub struct MenuEntry {
    pub label: Seq<char>,
    pub shortcut: Option<Seq<char>>,
    pub action: Seq<char>,
    pub enabled: bool,
    pub submenu: Option<Seq<MenuEntry>>,
}

/// The entry that an item stands for.
pub open spec fn entry_of(item: MenuItem) -> MenuEntry
    decreases item,
{
    MenuEntry {
        label: item.label@,
        shortcut: match item.shortcut {
            Some(s) => Some(s@),
            None => None,
        },
        action: item.action@,
        enabled: item.enabled,
        submenu: match item.submenu {
            Some(items) => Some(
                Seq::new(
                    items@.len(),
                    |i: int|
                        if 0 <= i < items@.len() {
                            entry_of(items@[i])
                        } else {
                            arbitrary()
                        },
                ),
            ),
            None => None,
        },
    }
}

impl View for MenuItem {
    type V = MenuEntry;

    open spec fn view(&self) -> MenuEntry {
        entry_of(*self)
    }
}

/// The entries that a list of items holds, in order.
pub open spec fn entries_of(items: Seq<MenuItem>) -> Seq<MenuEntry> {
    Seq::new(items.len(), |i: int| items[i]@)
}

/// The label that marks a separator line.
pub open spec fn separator_label() -> Seq<char> {
    "---"@
}

impl MenuEntry {
    /// An enabled entry without submenu.
    pub open spec fn plain(label: Seq<char>, shortcut: Option<Seq<char>>, action: Seq<char>) -> MenuEntry {
        MenuEntry { label, shortcut, action, enabled: true, submenu: None }
    }

    /// A separator is drawn as a rule and never reacts to a click.
    pub open spec fn is_separator(self) -> bool {
        self.label == separator_label()
    }

    /// Whether a click on this entry runs its action.
    pub open spec fn is_interactive(self) -> bool {
        !self.is_separator() && self.enabled
    }
}

impl Clone for MenuItem {
    fn clone(&self) -> (r: Self)
        ensures
            r@ == self@,
    {
        self.duplicate()
    }
}

impl MenuItem {
    /// An enabled item without submenu.
    pub fn new(label: &str, shortcut: Option<&str>, action: &str) -> (r: Self)
        ensures
            r@ == MenuEntry::plain(
                label@,
                match shortcut {
                    Some(s) => Some(s@),
                    None => None,
                },
                action@,
            ),
    {
        let shortcut = match shortcut {
            Some(s) => Some(s.to_owned()),
            None => None,
        };
        MenuItem {
            label: label.to_owned(),
            shortcut,
            action: action.to_owned(),
            enabled: true,
            submenu: None,
        }
    }

    /// The same item with its `enabled` flag set as given.
    pub fn enabled(self, enabled: bool) -> (r: Self)
        ensures
            r@ == (MenuEntry { enabled, ..self@ }),
    {
        let mut item = self;
        item.enabled = enabled;
        item
    }

    /// A copy of the item, submenu included.
    pub fn duplicate(&self) -> (r: Self)
        ensures
            r@ == self@,
        decreases self,
    {
        let shortcut = match &self.shortcut {
            Some(s) => Some(s.clone()),
            None => None,
        };
        let submenu = match &self.submenu {
            Some(items) => {
                let mut copies: Vec<MenuItem> = Vec::new();
                let mut i: usize = 0;
                while i < items.len()
                    invariant
                        i <= items.len(),
                        copies.len() == i,
                        self.submenu == Some(*items),
                        forall|k: int| 0 <= k < i ==> copies@[k]@ == items@[k]@,
                    decreases items.len() - i,
                {
                    proof {
                        vstd::std_specs::vec::axiom_vec_index_decreases(*items, i as int);
                        assert(decreases_to!(self.submenu => self.submenu->0));
                    }
                    copies.push(items[i].duplicate());
                    i = i + 1;
                }
                assert(entries_of(copies@) =~= entries_of(items@));
                Some(copies)
            },
            None => None,
        };
        let r = MenuItem {
            label: self.label.clone(),
            shortcut,
            action: self.action.clone(),
            enabled: self.enabled,
            submenu,
        };
        assert(r@.submenu == self@.submenu) by {
            if let Some(items) = self.submenu {
                assert(r@.submenu->0 =~= self@.submenu->0);
            }
        }
        r
    }

    /// Whether the item is a separator line.
    pub fn is_separator(&self) -> (r: bool)
        ensures
            r == self@.is_separator(),
    {
        same_text(self.label.as_str(), "---")
    }

    /// Whether a click on the item runs its action.
    pub fn is_interactive(&self) -> (r: bool)
        ensures
            r == self@.is_interactive(),
    {
        !self.is_separator() && self.enabled
    }
}

/// A separator entry as the built-in menus spell it.
pub open spec fn rule() -> MenuEntry {
    MenuEntry::plain("---"@, None, "separator"@)
}

/// The entries of the built-in menus.
pub open spec fn standard_entries(menu: MenuType) -> Seq<MenuEntry> {
    match menu {
        MenuType::File => seq![
            MenuEntry::plain("打开文件夹"@, Some("Ctrl+Shift+O"@), "open_folder"@),
            MenuEntry::plain("最近的编辑"@, None, "recent_edit"@),
            MenuEntry::plain("查找指定文件..."@, Some("Ctrl+O"@), "find_file"@),
            MenuEntry::plain("新建"@, Some("Ctrl+N"@), "new_file"@),
            MenuEntry::plain("保存"@, Some("Ctrl+S"@), "save_file"@),
            MenuEntry::plain("另存为"@, None, "save_as"@),
            MenuEntry::plain("保存全部"@, Some("Ctrl+Shift+S"@), "save_all"@),
            MenuEntry::plain("关闭"@, Some("Ctrl+W"@), "close_file"@),
            MenuEntry::plain("打印"@, Some("Ctrl+P"@), "print_file"@),
            MenuEntry::plain("重命名"@, Some("F2"@), "rename_file"@),
            MenuEntry::plain("刷新"@, Some("F5"@), "refresh_file"@),
            rule(),
            MenuEntry::plain("导入"@, None, "import_file"@),
            MenuEntry::plain("导出"@, None, "export_file"@),
            rule(),
            MenuEntry::plain("属性"@, None, "file_property"@),
            rule(),
            MenuEntry::plain("退出"@, Some("Ctrl+Q"@), "exit"@),
        ],
        MenuType::Edit => seq![
            MenuEntry::plain("撤销"@, Some("Ctrl+Z"@), "undo"@),
            MenuEntry::plain("重做"@, Some("Ctrl+Y"@), "redo"@),
            MenuEntry::plain("剪切"@, Some("Ctrl+X"@), "cut"@),
            MenuEntry::plain("复制"@, Some("Ctrl+C"@), "copy"@),
            MenuEntry::plain("粘贴"@, Some("Ctrl+V"@), "paste"@),
            (MenuEntry { enabled: false, ..MenuEntry::plain("删除"@, Some("Del"@), "delete"@) }),
            rule(),
            MenuEntry::plain("生成UUID"@, Some("Del"@), "generate_uuid"@),
        ],
        MenuType::Navigate => seq![MenuEntry::plain("跳转到行"@, Some("Ctrl+G"@), "goto_line"@)],
        MenuType::Search => seq![MenuEntry::plain("查找"@, Some("Ctrl+F"@), "find"@)],
        MenuType::SqlEditor => seq![MenuEntry::plain("新建查询"@, None, "new_query"@)],
        MenuType::Database => seq![MenuEntry::plain("连接数据库"@, None, "connect_db"@)],
        MenuType::Window => seq![
            MenuEntry::plain("新建窗口"@, Some("Ctrl+Shift+N"@), "new_window"@),
        ],
        MenuType::Help => seq![MenuEntry::plain("关于"@, None, "about"@)],
    }
}

/// The registry of menus: for each menu of the top bar, its items in order.
/// It is built once and only read afterwards.
pub struct MenuModel {
    menus: Vec<Vec<MenuItem>>,
}

impl MenuModel {
    #[verifier::type_invariant]
    spec fn complete(&self) -> bool {
        self.menus@.len() == 8
    }

    /// The entries registered for `menu`, in order.
    pub closed spec fn entries(&self, menu: MenuType) -> Seq<MenuEntry> {
        entries_of(self.menus@[menu.ordinal()]@)
    }

    /// A registry in which every menu is empty.
    pub fn empty() -> (r: Self)
        ensures
            forall|menu: MenuType| r.entries(menu) == Seq::<MenuEntry>::empty(),
    {
        let mut menus: Vec<Vec<MenuItem>> = Vec::new();
        let mut i: usize = 0;
        while i < 8
            invariant
                i <= 8,
                menus@.len() == i,
                forall|k: int| 0 <= k < i ==> menus@[k]@.len() == 0,
            decreases 8 - i,
        {
            menus.push(Vec::new());
            i = i + 1;
        }
        let r = MenuModel { menus };
        assert forall|menu: MenuType| r.entries(menu) == Seq::<MenuEntry>::empty() by {
            assert(r.entries(menu) =~= Seq::<MenuEntry>::empty());
        }
        r
    }

    /// The same registry with the items of `menu` replaced by `items`.
    pub fn with_items(self, menu: MenuType, items: Vec<MenuItem>) -> (r: Self)
        ensures
            r.entries(menu) == entries_of(items@),
            forall|other: MenuType| other != menu ==> r.entries(other) == self.entries(other),
    {
        proof {
            use_type_invariant(&self);
        }
        let mut menus = self.menus;
        let ghost before = menus@;
        menus.set(menu.index(), items);
        let r = MenuModel { menus };
        assert forall|other: MenuType| other != menu implies r.entries(other) == self.entries(
            other,
        ) by {
            assert(other.ordinal() != menu.ordinal());
            assert(r.menus@[other.ordinal()] == before[other.ordinal()]);
        }
        r
    }

    /// The items registered for `menu`, in order.
    pub fn items(&self, menu: MenuType) -> (r: &Vec<MenuItem>)
        ensures
            entries_of(r@) == self.entries(menu),
    {
        proof {
            use_type_invariant(self);
        }
        &self.menus[menu.index()]
    }

    /// The built-in menus of the shell.
    pub fn standard() -> (r: Self)
        ensures
            forall|menu: MenuType| r.entries(menu) == standard_entries(menu),
    {
        let sep = "---";
        let sep_action = "separator";
        let file = vec![
            MenuItem::new("打开文件夹", Some("Ctrl+Shift+O"), "open_folder"),
            MenuItem::new("最近的编辑", None, "recent_edit"),
            MenuItem::new("查找指定文件...", Some("Ctrl+O"), "find_file"),
            MenuItem::new("新建", Some("Ctrl+N"), "new_file"),
            MenuItem::new("保存", Some("Ctrl+S"), "save_file"),
            MenuItem::new("另存为", None, "save_as"),
            MenuItem::new("保存全部", Some("Ctrl+Shift+S"), "save_all"),
            MenuItem::new("关闭", Some("Ctrl+W"), "close_file"),
            MenuItem::new("打印", Some("Ctrl+P"), "print_file"),
            MenuItem::new("重命名", Some("F2"), "rename_file"),
            MenuItem::new("刷新", Some("F5"), "refresh_file"),
            MenuItem::new(sep, None, sep_action),
            MenuItem::new("导入", None, "import_file"),
            MenuItem::new("导出", None, "export_file"),
            MenuItem::new(sep, None, sep_action),
            MenuItem::new("属性", None, "file_property"),
            MenuItem::new(sep, None, sep_action),
            MenuItem::new("退出", Some("Ctrl+Q"), "exit"),
        ];
        assert(entries_of(file@) =~= standard_entries(MenuType::File));
        let edit = vec![
            MenuItem::new("撤销", Some("Ctrl+Z"), "undo"),
            MenuItem::new("重做", Some("Ctrl+Y"), "redo"),
            MenuItem::new("剪切", Some("Ctrl+X"), "cut"),
            MenuItem::new("复制", Some("Ctrl+C"), "copy"),
            MenuItem::new("粘贴", Some("Ctrl+V"), "paste"),
            MenuItem::new("删除", Some("Del"), "delete").enabled(false),
            MenuItem::new(sep, None, sep_action),
            MenuItem::new("生成UUID", Some("Del"), "generate_uuid"),
        ];
        assert(entries_of(edit@) =~= standard_entries(MenuType::Edit));
        let navigate = vec![MenuItem::new("跳转到行", Some("Ctrl+G"), "goto_line")];
        assert(entries_of(navigate@) =~= standard_entries(MenuType::Navigate));
        let search = vec![MenuItem::new("查找", Some("Ctrl+F"), "find")];
        assert(entries_of(search@) =~= standard_entries(MenuType::Search));
        let sql_editor = vec![MenuItem::new("新建查询", None, "new_query")];
        assert(entries_of(sql_editor@) =~= standard_entries(MenuType::SqlEditor));
        let database = vec![MenuItem::new("连接数据库", None, "connect_db")];
        assert(entries_of(database@) =~= standard_entries(MenuType::Database));
        let window = vec![MenuItem::new("新建窗口", Some("Ctrl+Shift+N"), "new_window")];
        assert(entries_of(window@) =~= standard_entries(MenuType::Window));
        let help = vec![MenuItem::new("关于", None, "about")];
        assert(entries_of(help@) =~= standard_entries(MenuType::Help));
        let r = MenuModel::empty()
            .with_items(MenuType::File, file)
            .with_items(MenuType::Edit, edit)
            .with_items(MenuType::Navigate, navigate)
            .with_items(MenuType::Search, search)
            .with_items(MenuType::SqlEditor, sql_editor)
            .with_items(MenuType::Database, database)
            .with_items(MenuType::Window, window)
            .with_items(MenuType::Help, help);
        r
    }
}

} // verus!

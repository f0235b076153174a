//! The state of the shell and what each event does to it: clicks on the menu
//! bar, the actions that menu items name, the opening of folders into tabs and
//! the toggling of directories in the active tab.
//!
//! Nothing here blocks or reads anything. Where an action needs a folder from
//! the user, `handle_menu_action` answers `Effect::PickFolder`, and the caller
//! comes back with `open_folder`.

use vstd::prelude::*;
use crate::action::{action_named, Action, ActionKind};
pub use crate::explorer::ExplorerTab;
use crate::explorer::{TabState, ToggleOutcome};
use crate::interaction::MenuInteraction;
use crate::loader::{listed_of, Listed, ListedEntry};
pub use crate::menu::{MenuItem, MenuType};
use crate::menu::{standard_entries, MenuModel};
pub use crate::tree::FileItem;
use crate::text::{join, same_text};
use crate::tree::{find, find_entry};
use crate::utils::{final_component, FileUtils};

verus! {

/// Milliseconds after which a status message gives way to the idle one.
pub const STATUS_LIFETIME_MS: u64 = 3000;

/// What the caller has to do after an action was handled.
#[derive(Clone, Copy, PartialEq, Eq, Structural, Debug)]
pub enum Effect {
    /// Nothing: the action is done.
    Done,
    /// Ask the user for a folder and report the answer with `open_folder`.
    PickFolder,
    /// The identifier names no action. Nothing changed.
    Unhandled,
}

/// A folder that the user chose, with the entries read from it.
pub struct PickedFolder {
    pub path: String,
    pub entries: Vec<ListedEntry>,
}

/// The state of the shell. `A` is the type of the point at which an open menu
/// is anchored; the shell stores it and hands it back.
pub struct MyApp<A> {
    pub name: String,
    pub age: u32,
    /// Which menu is open, where, and since when.
    pub menu: MenuInteraction<A>,
    pub menu_data: MenuModel,
    pub current_file: Option<String>,
    pub is_dark_mode: bool,
    pub status_message: String,
    /// Time in milliseconds at which the status message was set, or zero
    /// where it never expires.
    pub status_message_time: u64,
    pub explorer_tabs: Vec<ExplorerTab>,
    pub active_explorer_tab: Option<usize>,
}

/// The state of the shell as a mathematical value.
pub struct AppState<A> {
    pub name: Seq<char>,
    pub age: u32,
    pub menu: MenuInteraction<A>,
    pub menu_data: MenuModel,
    pub current_file: Option<Seq<char>>,
    pub is_dark_mode: bool,
    pub status_message: Seq<char>,
    pub status_message_time: u64,
    pub tabs: Seq<TabState>,
    pub active_tab: Option<usize>,
}

/// The states that a list of tabs stands for, in order.
pub open spec fn tabs_of(tabs: Seq<ExplorerTab>) -> Seq<TabState> {
    Seq::new(tabs.len(), |i: int| tabs[i]@)
}

/// The tabs with the one at `index` as the only active one.
pub open spec fn activating(tabs: Seq<TabState>, index: int) -> Seq<TabState> {
    Seq::new(tabs.len(), |i: int| TabState { is_active: i == index, ..tabs[i] })
}

/// Makes the tab at `index` the only active one.
fn activate_only(tabs: &mut Vec<ExplorerTab>, index: usize)
    ensures
        tabs_of(final(tabs)@) == activating(tabs_of(old(tabs)@), index as int),
{
    let ghost before = tabs_of(tabs@);
    let count = tabs.len();
    let mut j: usize = 0;
    while j < count
        invariant
            j <= count,
            tabs.len() == count,
            before.len() == count,
            forall|k: int|
                0 <= k < j ==> (#[trigger] tabs@[k])@ == (TabState {
                    is_active: k == index,
                    ..before[k]
                }),
            forall|k: int| j <= k < count ==> (#[trigger] tabs@[k])@ == before[k],
        decreases count - j,
    {
        let ghost prior = tabs@;
        tabs[j].is_active = j == index;
        assert(forall|k: int| 0 <= k < count && k != j ==> tabs@[k] == prior[k]);
        j = j + 1;
    }
    assert(tabs_of(tabs@) =~= activating(before, index as int));
}

impl<A> View for MyApp<A> {
    type V = AppState<A>;

    open spec fn view(&self) -> AppState<A> {
        AppState {
            name: self.name@,
            age: self.age,
            menu: self.menu,
            menu_data: self.menu_data,
            current_file: match self.current_file {
                Some(file) => Some(file@),
                None => None,
            },
            is_dark_mode: self.is_dark_mode,
            status_message: self.status_message@,
            status_message_time: self.status_message_time,
            tabs: tabs_of(self.explorer_tabs@),
            active_tab: self.active_explorer_tab,
        }
    }
}

/// The status message of an idle shell.
pub open spec fn idle_message() -> Seq<char> {
    "就绪"@
}

/// The message shown when the theme was switched.
pub open spec fn theme_notice(dark: bool) -> Seq<char> {
    "已切换到"@ + (if dark {
        "深色"@
    } else {
        "浅色"@
    }) + "模式"@
}

/// The name under which an opened folder is announced: its final component,
/// or a general word where the path has none.
pub open spec fn folder_label(path: Seq<char>) -> Seq<char> {
    match final_component(path) {
        Some(name) => name,
        None => "文件夹"@,
    }
}

/// The message that an action shows and that does not depend on the state.
/// The actions that read or change more than the message have none here.
pub open spec fn notice(action: ActionKind) -> Option<Seq<char>> {
    match action {
        ActionKind::OpenFolder => Some("正在打开文件夹..."@),
        ActionKind::NewFile => Some("已创建新文件"@),
        ActionKind::OpenFile => Some("正在打开文件对话框..."@),
        ActionKind::SaveFile => Some("正在保存文件..."@),
        ActionKind::SaveAs => Some("正在打开另存为对话框..."@),
        ActionKind::SaveAll => Some("正在保存所有打开的文件..."@),
        ActionKind::PrintFile => Some("正在准备打印..."@),
        ActionKind::RenameFile => Some("正在重命名文件..."@),
        ActionKind::RefreshFile => Some("正在刷新文件内容..."@),
        ActionKind::ImportFile => Some("正在导入文件..."@),
        ActionKind::ExportFile => Some("正在导出文件..."@),
        ActionKind::FileProperty => Some("正在显示文件属性..."@),
        ActionKind::Undo => Some("正在撤销上一步操作..."@),
        ActionKind::Redo => Some("正在重做下一步操作..."@),
        ActionKind::Cut => Some("正在剪切选中内容..."@),
        ActionKind::Copy => Some("正在复制选中内容..."@),
        ActionKind::Paste => Some("正在粘贴内容..."@),
        ActionKind::Delete => Some("正在删除选中内容..."@),
        ActionKind::GenerateUuid => Some("正在生成UUID..."@),
        ActionKind::GotoLine => Some("正在打开跳转到行对话框..."@),
        ActionKind::Find => Some("正在打开查找对话框..."@),
        ActionKind::NewQuery => Some("正在创建新的SQL查询..."@),
        ActionKind::ConnectDb => Some("正在打开数据库连接对话框..."@),
        ActionKind::NewWindow => Some("正在创建新窗口..."@),
        ActionKind::About => Some("正在显示关于信息..."@),
        ActionKind::Exit => Some("正在退出应用..."@),
        ActionKind::CloseFile => None,
        ActionKind::ToggleDarkMode => None,
        ActionKind::Unrecognized(_) => None,
    }
}

/// What the caller is left to do after an action.
pub open spec fn effect_of(action: ActionKind) -> Effect {
    match action {
        ActionKind::OpenFolder => Effect::PickFolder,
        ActionKind::Unrecognized(_) => Effect::Unhandled,
        _ => Effect::Done,
    }
}

impl<A> AppState<A> {
    /// A shell that was just started: the built-in menus, no menu open, no
    /// tab, the light theme and the idle message.
    pub open spec fn is_initial(self) -> bool {
        &&& self.name == "Arthur"@
        &&& self.age == 42
        &&& self.menu == MenuInteraction::<A>::Closed
        &&& forall|menu: MenuType| self.menu_data.entries(menu) == standard_entries(menu)
        &&& self.current_file is None
        &&& !self.is_dark_mode
        &&& self.status_message == idle_message()
        &&& self.status_message_time == 0
        &&& self.tabs.len() == 0
        &&& self.active_tab is None
    }

    /// The state with `message` as its status message, set to never expire.
    pub open spec fn notified(self, message: Seq<char>) -> Self {
        AppState { status_message: message, status_message_time: 0, ..self }
    }

    /// The state after an action was handled.
    pub open spec fn after_action(self, action: ActionKind) -> Self {
        match action {
            ActionKind::NewFile => (AppState {
                current_file: None,
                name: "新文件"@,
                ..self
            }).notified("已创建新文件"@),
            ActionKind::CloseFile => if self.current_file is Some {
                (AppState { current_file: None, ..self }).notified("正在关闭当前文件..."@)
            } else {
                self.notified("没有打开的文件"@)
            },
            ActionKind::ToggleDarkMode => (AppState {
                is_dark_mode: !self.is_dark_mode,
                ..self
            }).notified(theme_notice(!self.is_dark_mode)),
            ActionKind::Unrecognized(_) => self,
            other => self.notified(notice(other)->0),
        }
    }

    /// The state after the idle message took over from an expired one at
    /// time `now`. A message set to never expire stays.
    pub open spec fn after_expiry(self, now: u64) -> Self {
        if self.status_message_time > 0 && now - self.status_message_time > STATUS_LIFETIME_MS
            && self.status_message != idle_message() {
            AppState { status_message: idle_message(), status_message_time: 0, ..self }
        } else {
            self
        }
    }

    /// Tab `index` is active and no other is.
    pub open spec fn only_active(self, index: int) -> bool {
        &&& 0 <= index < self.tabs.len()
        &&& forall|i: int| 0 <= i < self.tabs.len() ==> (#[trigger] self.tabs[i].is_active <==> i
            == index)
    }

    /// The flags of the tabs agree with the index of the active tab: the tab
    /// named there is the one active tab, and without one no tab is active.
    pub open spec fn activation_consistent(self) -> bool {
        match self.active_tab {
            Some(index) => self.only_active(index as int),
            None => forall|i: int| 0 <= i < self.tabs.len() ==> !(#[trigger] self.tabs[i]).is_active,
        }
    }

    /// The shape the shell keeps: consistent activation and well-formed tabs.
    pub open spec fn well_formed(self) -> bool {
        &&& self.activation_consistent()
        &&& forall|i: int| 0 <= i < self.tabs.len() ==> (#[trigger] self.tabs[i]).well_formed()
    }

    /// The tabs with `index` as the only active one.
    pub open spec fn tabs_activating(self, index: int) -> Seq<TabState> {
        activating(self.tabs, index)
    }

    /// The state after a folder was opened into a new tab: the tab is added
    /// behind the others and is the only active one.
    pub open spec fn with_new_tab(self, path: Seq<char>, entries: Seq<Listed>) -> Self {
        let added = (AppState { tabs: self.tabs.push(TabState::opened(path, entries)), ..self });
        (AppState {
            tabs: added.tabs_activating(self.tabs.len() as int),
            active_tab: Some(self.tabs.len() as usize),
            ..self
        }).notified("已打开文件夹: "@ + folder_label(path))
    }

    /// The state after the answer to `Effect::PickFolder`: a new tab for the
    /// folder chosen, or a message where the user chose none.
    pub open spec fn after_pick(self, picked: Option<(Seq<char>, Seq<Listed>)>) -> Self {
        match picked {
            Some((path, entries)) => self.with_new_tab(path, entries),
            None => self.notified("用户取消了文件夹选择"@),
        }
    }

    /// The state after tab `index` was chosen.
    pub open spec fn with_active_tab(self, index: int) -> Self {
        (AppState {
            tabs: self.tabs_activating(index),
            active_tab: Some(index as usize),
            ..self
        }).notified("切换到资源管理器: "@ + self.tabs[index].name)
    }

    /// The state after tab `index` was closed: the tab is gone, the others
    /// keep their order and their flags, and the index of the active tab
    /// follows it. Closing the active tab leaves no tab active.
    pub open spec fn without_tab(self, index: int) -> Self {
        AppState {
            tabs: self.tabs.remove(index),
            active_tab: match self.active_tab {
                Some(active) => if active == index {
                    None
                } else if active > index {
                    Some((active - 1) as usize)
                } else {
                    Some(active)
                },
                None => None,
            },
            ..self
        }
    }

    /// The active tab, if the index of one is recorded and is in range.
    pub open spec fn active(self) -> Option<TabState> {
        match self.active_tab {
            Some(index) => if index < self.tabs.len() {
                Some(self.tabs[index as int])
            } else {
                None
            },
            None => None,
        }
    }

    /// Whether the active tab admits a listing; true without an active tab.
    pub open spec fn active_admits(self, entries: Seq<Listed>) -> bool {
        match self.active() {
            Some(tab) => tab.admits(entries),
            None => true,
        }
    }

    /// What a toggle of `path` in the active tab answers; `Ignored` without
    /// an active tab.
    pub open spec fn toggle_outcome(self, path: Seq<char>) -> ToggleOutcome {
        match self.active() {
            Some(tab) => tab.toggle_outcome(path),
            None => ToggleOutcome::Ignored,
        }
    }

    /// The state after a toggle of `path` in the active tab.
    pub open spec fn after_toggle(self, path: Seq<char>) -> Self {
        match self.active() {
            Some(tab) => {
                let tabs = self.tabs.update(self.active_tab->0 as int, tab.toggled(path));
                match tab.toggle_outcome(path) {
                    ToggleOutcome::Collapsed => (AppState { tabs, ..self }).notified(
                        "折叠 "@ + find(tab.tree, path)->0.name,
                    ),
                    ToggleOutcome::Expanded => (AppState { tabs, ..self }).notified(
                        "展开 "@ + find(tab.tree, path)->0.name,
                    ),
                    _ => self,
                }
            },
            None => self,
        }
    }

    /// The state after a never-listed directory of the active tab was opened
    /// with the entries read from it.
    pub open spec fn after_expand(self, path: Seq<char>, entries: Seq<Listed>) -> Self {
        if self.toggle_outcome(path) == ToggleOutcome::NeedsListing {
            let tab = self.active()->0;
            (AppState {
                tabs: self.tabs.update(
                    self.active_tab->0 as int,
                    tab.expanded_with(path, entries),
                ),
                ..self
            }).notified("展开 "@ + find(tab.tree, path)->0.name)
        } else {
            self
        }
    }

    /// The state after a click on the label of the entry at `path` in the
    /// active tab.
    pub open spec fn after_select(self, path: Seq<char>) -> Self {
        match self.active() {
            Some(tab) => match find(tab.tree, path) {
                Some(node) => self.notified(
                    (if node.is_directory {
                        "打开文件夹: "@
                    } else {
                        "打开文件: "@
                    }) + node.name,
                ),
                None => self,
            },
            None => self,
        }
    }

    /// The state after a click on item `index` of the open menu: where the
    /// click runs an action, the menu closes and the action is handled;
    /// otherwise nothing changes.
    pub open spec fn after_item_click(self, index: int) -> Self {
        match self.menu.action_of_click(self.menu_data, index) {
            Some(id) => (AppState { menu: MenuInteraction::Closed, ..self }).after_action(
                action_named(id),
            ),
            None => self,
        }
    }
}

impl<A> MyApp<A> {
    /// A shell that was just started.
    pub fn new() -> (r: Self)
        ensures
            r@.is_initial(),
            r@.well_formed(),
    {
        MyApp {
            name: "Arthur".to_owned(),
            age: 42,
            menu: MenuInteraction::Closed,
            menu_data: MenuModel::standard(),
            current_file: None,
            is_dark_mode: false,
            status_message: "就绪".to_owned(),
            status_message_time: 0,
            explorer_tabs: Vec::new(),
            active_explorer_tab: None,
        }
    }

    /// Shows `message` in the status bar, never to expire.
    pub fn set_status_message(&mut self, message: String)
        ensures
            final(self)@ == old(self)@.notified(message@),
    {
        self.status_message = message;
        self.status_message_time = 0;
    }

    fn notify(&mut self, message: &str)
        ensures
            final(self)@ == old(self)@.notified(message@),
    {
        self.set_status_message(message.to_owned());
    }

    /// Lets the idle message take over from a status message that has been
    /// shown for more than three seconds at time `now`, in milliseconds.
    pub fn update_status_message(&mut self, now: u64)
        ensures
            final(self)@ == old(self)@.after_expiry(now),
    {
        if self.status_message_time > 0 && now > self.status_message_time && now
            - self.status_message_time > STATUS_LIFETIME_MS {
            if !same_text(self.status_message.as_str(), "就绪") {
                self.status_message = "就绪".to_owned();
                self.status_message_time = 0;
            }
        }
    }

    /// Switches between the light and the dark theme.
    pub fn toggle_dark_mode(&mut self)
        ensures
            final(self)@ == old(self)@.after_action(ActionKind::ToggleDarkMode),
    {
        self.is_dark_mode = !self.is_dark_mode;
        let mode = if self.is_dark_mode {
            "深色"
        } else {
            "浅色"
        };
        let message = join("已切换到", mode).concat("模式");
        self.set_status_message(message);
    }

    fn close_file(&mut self)
        ensures
            final(self)@ == old(self)@.after_action(ActionKind::CloseFile),
    {
        if self.current_file.is_some() {
            self.notify("正在关闭当前文件...");
            self.current_file = None;
        } else {
            self.notify("没有打开的文件");
        }
    }

    fn new_file(&mut self)
        ensures
            final(self)@ == old(self)@.after_action(ActionKind::NewFile),
    {
        self.current_file = None;
        self.name = "新文件".to_owned();
        self.notify("已创建新文件");
    }

    /// Handles an action. Every action is accepted; one that is not
    /// recognized changes nothing.
    pub fn dispatch(&mut self, action: &Action) -> (effect: Effect)
        ensures
            final(self)@ == old(self)@.after_action(action@),
            effect == effect_of(action@),
    {
        match action {
            Action::OpenFolder => {
                self.notify("正在打开文件夹...");
                Effect::PickFolder
            },
            Action::NewFile => {
                self.new_file();
                Effect::Done
            },
            Action::OpenFile => {
                self.notify("正在打开文件对话框...");
                Effect::Done
            },
            Action::SaveFile => {
                self.notify("正在保存文件...");
                Effect::Done
            },
            Action::SaveAs => {
                self.notify("正在打开另存为对话框...");
                Effect::Done
            },
            Action::SaveAll => {
                self.notify("正在保存所有打开的文件...");
                Effect::Done
            },
            Action::CloseFile => {
                self.close_file();
                Effect::Done
            },
            Action::PrintFile => {
                self.notify("正在准备打印...");
                Effect::Done
            },
            Action::RenameFile => {
                self.notify("正在重命名文件...");
                Effect::Done
            },
            Action::RefreshFile => {
                self.notify("正在刷新文件内容...");
                Effect::Done
            },
            Action::ImportFile => {
                self.notify("正在导入文件...");
                Effect::Done
            },
            Action::ExportFile => {
                self.notify("正在导出文件...");
                Effect::Done
            },
            Action::FileProperty => {
                self.notify("正在显示文件属性...");
                Effect::Done
            },
            Action::Undo => {
                self.notify("正在撤销上一步操作...");
                Effect::Done
            },
            Action::Redo => {
                self.notify("正在重做下一步操作...");
                Effect::Done
            },
            Action::Cut => {
                self.notify("正在剪切选中内容...");
                Effect::Done
            },
            Action::Copy => {
                self.notify("正在复制选中内容...");
                Effect::Done
            },
            Action::Paste => {
                self.notify("正在粘贴内容...");
                Effect::Done
            },
            Action::Delete => {
                self.notify("正在删除选中内容...");
                Effect::Done
            },
            Action::GenerateUuid => {
                self.notify("正在生成UUID...");
                Effect::Done
            },
            Action::GotoLine => {
                self.notify("正在打开跳转到行对话框...");
                Effect::Done
            },
            Action::Find => {
                self.notify("正在打开查找对话框...");
                Effect::Done
            },
            Action::NewQuery => {
                self.notify("正在创建新的SQL查询...");
                Effect::Done
            },
            Action::ConnectDb => {
                self.notify("正在打开数据库连接对话框...");
                Effect::Done
            },
            Action::NewWindow => {
                self.notify("正在创建新窗口...");
                Effect::Done
            },
            Action::About => {
                self.notify("正在显示关于信息...");
                Effect::Done
            },
            Action::Exit => {
                self.notify("正在退出应用...");
                Effect::Done
            },
            Action::ToggleDarkMode => {
                self.toggle_dark_mode();
                Effect::Done
            },
            Action::Unrecognized(_) => Effect::Unhandled,
        }
    }

    /// Handles the action that `action` names.
    pub fn handle_menu_action(&mut self, action: &str) -> (effect: Effect)
        ensures
            final(self)@ == old(self)@.after_action(action_named(action@)),
            effect == effect_of(action_named(action@)),
    {
        let parsed = Action::parse(action);
        self.dispatch(&parsed)
    }

    /// A click on the header of `menu` in the menu bar. `anchor` is the lower
    /// left corner of the header and `now` the time in milliseconds.
    pub fn click_menu_header(&mut self, menu: MenuType, anchor: A, now: u64)
        ensures
            final(self)@ == (AppState {
                menu: old(self)@.menu.after_header_click(menu, anchor, now),
                ..old(self)@
            }),
    {
        self.menu.click_header(menu, anchor, now);
    }

    /// The cancel key: an open menu closes.
    pub fn press_cancel(&mut self)
        ensures
            final(self)@ == (AppState { menu: MenuInteraction::Closed, ..old(self)@ }),
    {
        self.menu.cancel();
    }

    /// A click on item `index` of the open menu. Where the item is enabled
    /// and no separator, the menu closes and the item's action is handled,
    /// once; the effect of the action comes back. A click on a disabled item,
    /// on a separator, beside the items or without an open menu changes
    /// nothing and handles nothing.
    pub fn click_menu_item(&mut self, index: usize) -> (handled: Option<Effect>)
        ensures
            final(self)@ == old(self)@.after_item_click(index as int),
            match old(self)@.menu.action_of_click(old(self)@.menu_data, index as int) {
                Some(id) => handled == Some(effect_of(action_named(id))),
                None => handled is None,
            },
            handled is Some ==> (old(self)@.menu.entry_at(old(self)@.menu_data, index as int)
                matches Some(entry) && entry.enabled && !entry.is_separator()),
    {
        match self.menu.click_item(&self.menu_data, index) {
            Some(id) => Some(self.handle_menu_action(id.as_str())),
            None => None,
        }
    }

    /// Opens `folder_path` in a new tab with the entries read from it. The
    /// tab is added behind the others and becomes the only active one.
    pub fn add_explorer_tab(&mut self, folder_path: &str, entries: &Vec<ListedEntry>)
        ensures
            final(self)@ == old(self)@.with_new_tab(folder_path@, listed_of(entries@)),
            final(self)@.only_active(final(self)@.tabs.len() - 1),
            final(self)@.tabs.len() == old(self)@.tabs.len() + 1,
            old(self)@.well_formed() ==> final(self)@.well_formed(),
    {
        let folder_name = match FileUtils::get_filename(folder_path) {
            Some(name) => name,
            None => "文件夹".to_owned(),
        };
        let tab = ExplorerTab::new(folder_path, entries);
        let new_index = self.explorer_tabs.len();
        let ghost before = tabs_of(self.explorer_tabs@);
        self.explorer_tabs.push(tab);
        assert(tabs_of(self.explorer_tabs@) =~= before.push(
            TabState::opened(folder_path@, listed_of(entries@)),
        ));
        activate_only(&mut self.explorer_tabs, new_index);
        self.active_explorer_tab = Some(new_index);
        self.set_status_message(join("已打开文件夹: ", folder_name.as_str()));
        proof {
            let target = old(self)@.with_new_tab(folder_path@, listed_of(entries@));
            if old(self)@.well_formed() {
                assert forall|k: int| 0 <= k < target.tabs.len() implies (
                #[trigger] target.tabs[k]).well_formed() by {
                    if k < before.len() {
                        assert(before[k].well_formed());
                    }
                }
            }
        }
    }

    /// Reports the answer to `Effect::PickFolder`: the folder that the user
    /// chose, or none. A folder chosen is opened in a new tab, which becomes
    /// the only active one. Without one no tab is made and a message says so.
    pub fn open_folder(&mut self, picked: Option<PickedFolder>)
        ensures
            final(self)@ == old(self)@.after_pick(
                match picked {
                    Some(folder) => Some((folder.path@, listed_of(folder.entries@))),
                    None => None,
                },
            ),
            picked is Some ==> final(self)@.only_active(final(self)@.tabs.len() - 1),
            picked is Some ==> final(self)@.tabs.len() == old(self)@.tabs.len() + 1,
            picked is None ==> final(self)@.tabs == old(self)@.tabs && final(self)@.active_tab
                == old(self)@.active_tab,
            old(self)@.well_formed() ==> final(self)@.well_formed(),
    {
        match picked {
            Some(folder) => {
                self.add_explorer_tab(folder.path.as_str(), &folder.entries);
            },
            None => {
                self.notify("用户取消了文件夹选择");
            },
        }
    }

    /// Makes tab `index` the active one.
    pub fn activate_explorer_tab(&mut self, index: usize)
        requires
            index < old(self)@.tabs.len(),
        ensures
            final(self)@ == old(self)@.with_active_tab(index as int),
            final(self)@.only_active(index as int),
            old(self)@.well_formed() ==> final(self)@.well_formed(),
    {
        let ghost before = tabs_of(self.explorer_tabs@);
        let message = join("切换到资源管理器: ", self.explorer_tabs[index].name.as_str());
        self.active_explorer_tab = Some(index);
        activate_only(&mut self.explorer_tabs, index);
        self.set_status_message(message);
        proof {
            let target = old(self)@.with_active_tab(index as int);
            if old(self)@.well_formed() {
                assert forall|k: int| 0 <= k < target.tabs.len() implies (
                #[trigger] target.tabs[k]).well_formed() by {
                    assert(before[k].well_formed());
                }
            }
        }
    }

    /// Closes tab `index` and hands it out. Without such a tab nothing
    /// changes.
    pub fn close_explorer_tab(&mut self, index: usize) -> (closed: Option<ExplorerTab>)
        ensures
            index < old(self)@.tabs.len() ==> final(self)@ == old(self)@.without_tab(index as int)
                && closed is Some && closed->0@ == old(self)@.tabs[index as int],
            index >= old(self)@.tabs.len() ==> final(self)@ == old(self)@ && closed is None,
            old(self)@.well_formed() ==> final(self)@.well_formed(),
    {
        if index >= self.explorer_tabs.len() {
            return None;
        }
        let ghost before = tabs_of(self.explorer_tabs@);
        let tab = self.explorer_tabs.remove(index);
        assert(tabs_of(self.explorer_tabs@) =~= before.remove(index as int));
        self.active_explorer_tab = match self.active_explorer_tab {
            Some(active) => if active == index {
                None
            } else if active > index {
                Some(active - 1)
            } else {
                Some(active)
            },
            None => None,
        };
        proof {
            if old(self)@.well_formed() {
                let after = old(self)@.without_tab(index as int);
                assert forall|k: int| 0 <= k < after.tabs.len() implies (
                #[trigger] after.tabs[k]).well_formed() && after.tabs[k] == before[if k < index {
                    k
                } else {
                    k + 1
                }] by {
                    if k < index {
                        assert(before[k].well_formed());
                    } else {
                        assert(before[k + 1].well_formed());
                    }
                }
                assert(after.activation_consistent());
            }
        }
        Some(tab)
    }

    /// Expands or collapses the directory at `path` in the active tab and
    /// says so in the status bar. For a directory never listed nothing
    /// changes and `NeedsListing` comes back: list it and call
    /// `expand_folder`. Without an active tab, or for a path that no
    /// directory of its tree has, nothing changes.
    pub fn toggle_folder(&mut self, path: &str) -> (outcome: ToggleOutcome)
        ensures
            outcome == old(self)@.toggle_outcome(path@),
            final(self)@ == old(self)@.after_toggle(path@),
            old(self)@.well_formed() ==> final(self)@.well_formed(),
    {
        let index = match self.active_explorer_tab {
            Some(index) => index,
            None => {
                return ToggleOutcome::Ignored;
            },
        };
        if index >= self.explorer_tabs.len() {
            return ToggleOutcome::Ignored;
        }
        let ghost before = tabs_of(self.explorer_tabs@);
        let label = match find_entry(&self.explorer_tabs[index].file_tree, path) {
            Some(item) => item.name.clone(),
            None => {
                return ToggleOutcome::Ignored;
            },
        };
        let outcome = self.explorer_tabs[index].toggle(path);
        assert(tabs_of(self.explorer_tabs@) =~= before.update(
            index as int,
            before[index as int].toggled(path@),
        ));
        assert(before.update(index as int, before[index as int]) =~= before);
        match outcome {
            ToggleOutcome::Collapsed => {
                self.set_status_message(join("折叠 ", label.as_str()));
            },
            ToggleOutcome::Expanded => {
                self.set_status_message(join("展开 ", label.as_str()));
            },
            _ => {},
        }
        proof {
            if old(self)@.well_formed() {
                let after = old(self)@.after_toggle(path@);
                assert forall|k: int| 0 <= k < after.tabs.len() implies (
                #[trigger] after.tabs[k]).well_formed() by {
                    assert(before[k].well_formed());
                }
                assert(after.activation_consistent()) by {
                    assert forall|k: int| 0 <= k < after.tabs.len() implies (
                    #[trigger] after.tabs[k]).is_active == before[k].is_active by {}
                }
            }
        }
        outcome
    }

    /// Opens the never-listed directory at `path` in the active tab with the
    /// entries read from it, and says so in the status bar. Says whether it
    /// did so: where `toggle_folder` would not answer `NeedsListing`,
    /// nothing changes.
    pub fn expand_folder(&mut self, path: &str, entries: &Vec<ListedEntry>) -> (done: bool)
        ensures
            done == (old(self)@.toggle_outcome(path@) == ToggleOutcome::NeedsListing),
            final(self)@ == old(self)@.after_expand(path@, listed_of(entries@)),
            old(self)@.well_formed() && old(self)@.active_admits(listed_of(entries@))
                ==> final(self)@.well_formed(),
    {
        let index = match self.active_explorer_tab {
            Some(index) => index,
            None => {
                return false;
            },
        };
        if index >= self.explorer_tabs.len() {
            return false;
        }
        let ghost before = tabs_of(self.explorer_tabs@);
        let label = match find_entry(&self.explorer_tabs[index].file_tree, path) {
            Some(item) => item.name.clone(),
            None => {
                return false;
            },
        };
        let done = self.explorer_tabs[index].expand_with(path, entries);
        assert(tabs_of(self.explorer_tabs@) =~= before.update(
            index as int,
            before[index as int].expanded_with(path@, listed_of(entries@)),
        ));
        assert(before.update(index as int, before[index as int]) =~= before);
        if done {
            self.set_status_message(join("展开 ", label.as_str()));
        }
        proof {
            if old(self)@.well_formed() && before[index as int].admits(listed_of(entries@)) {
                let after = old(self)@.after_expand(path@, listed_of(entries@));
                assert forall|k: int| 0 <= k < after.tabs.len() implies (
                #[trigger] after.tabs[k]).well_formed() by {
                    assert(before[k].well_formed());
                }
                assert(after.activation_consistent()) by {
                    assert forall|k: int| 0 <= k < after.tabs.len() implies (
                    #[trigger] after.tabs[k]).is_active == before[k].is_active by {}
                }
            }
        }
        done
    }

    /// A click on the label of the entry at `path` in the active tab: the
    /// status bar names the entry. Without an active tab, or where its tree
    /// has no such entry, nothing changes.
    pub fn select_entry(&mut self, path: &str)
        ensures
            final(self)@ == old(self)@.after_select(path@),
    {
        let index = match self.active_explorer_tab {
            Some(index) => index,
            None => {
                return ;
            },
        };
        if index >= self.explorer_tabs.len() {
            return ;
        }
        let message = match find_entry(&self.explorer_tabs[index].file_tree, path) {
            Some(item) => {
                let prefix = if item.is_directory {
                    "打开文件夹: "
                } else {
                    "打开文件: "
                };
                join(prefix, item.name.as_str())
            },
            None => {
                return ;
            },
        };
        self.set_status_message(message);
    }
}

/// A click on a disabled item of the open menu handles no action and changes
/// nothing, in whatever state the shell is.
pub proof fn lemma_disabled_item_click<A>(app: AppState<A>, index: int)
    requires
        app.menu.entry_at(app.menu_data, index) matches Some(entry) && !entry.enabled,
    ensures
        app.menu.action_of_click(app.menu_data, index) is None,
        app.after_item_click(index) == app,
{
}

/// After a folder was opened, the tab made for it is the last one and the
/// only active one.
pub proof fn lemma_newest_tab_only_active<A>(app: AppState<A>, path: Seq<char>, entries: Seq<Listed>)
    ensures
        ({
            let after = app.with_new_tab(path, entries);
            &&& after.tabs.len() == app.tabs.len() + 1
            &&& after.only_active(after.tabs.len() - 1)
            &&& after.tabs[after.tabs.len() - 1] == TabState::opened(path, entries)
            &&& app.tabs.len() <= usize::MAX ==> after.active_tab == Some(app.tabs.len() as usize)
        }),
{
}

impl<A> Default for MyApp<A> {
    fn default() -> (r: Self)
        ensures
            r@.is_initial(),
            r@.well_formed(),
    {
        MyApp::new()
    }
}

} // verus!

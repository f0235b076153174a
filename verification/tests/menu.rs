use shell_explorer::action::Action;
use shell_explorer::app::{Effect, MyApp, PickedFolder};
use shell_explorer::explorer::ToggleOutcome;
use shell_explorer::interaction::{MenuEvent, MenuInteraction, MENU_OPEN_DELAY_MS};
use shell_explorer::loader::ListedEntry;
use shell_explorer::menu::{MenuItem, MenuModel, MenuType};
use shell_explorer::ui::UIRenderer;

type App = MyApp<(f32, f32)>;

fn dir(name: &str, path: &str) -> ListedEntry {
    ListedEntry { name: name.to_string(), path: path.to_string(), is_directory: true }
}

fn file(name: &str, path: &str) -> ListedEntry {
    ListedEntry { name: name.to_string(), path: path.to_string(), is_directory: false }
}

fn picked(path: &str, entries: Vec<ListedEntry>) -> Option<PickedFolder> {
    Some(PickedFolder { path: path.to_string(), entries })
}

#[test]
fn header_click_opens_disabled_item_keeps_header_click_closes() {
    let mut app = App::new();
    app.menu_data = MenuModel::standard().with_items(
        MenuType::File,
        vec![
            MenuItem::new("Open", None, "open_file"),
            MenuItem::new("Delete", None, "delete").enabled(false),
        ],
    );
    assert_eq!(app.menu.active_menu(), None);
    app.click_menu_header(MenuType::File, (4.0, 20.5), 1000);
    assert_eq!(app.menu.active_menu(), Some(MenuType::File));
    assert_eq!(app.menu.anchor(), Some(&(4.0, 20.5)));
    assert_eq!(app.menu.opened_at(), Some(1100));

    assert_eq!(app.click_menu_item(1), None);
    assert_eq!(app.menu.active_menu(), Some(MenuType::File));
    assert_eq!(app.menu.anchor(), Some(&(4.0, 20.5)));
    assert_eq!(app.menu.opened_at(), Some(1100));
    assert_eq!(app.status_message, "就绪");

    app.click_menu_header(MenuType::File, (4.0, 20.5), 2000);
    assert_eq!(app.menu.active_menu(), None);
    assert_eq!(app.menu.anchor(), None);
    assert_eq!(app.menu.opened_at(), None);
}

#[test]
fn another_header_replaces_the_open_menu() {
    let mut app = App::new();
    app.click_menu_header(MenuType::File, (0.0, 18.0), 10);
    app.click_menu_header(MenuType::Help, (300.0, 18.0), 20);
    assert_eq!(app.menu.active_menu(), Some(MenuType::Help));
    assert_eq!(app.menu.anchor(), Some(&(300.0, 18.0)));
    assert_eq!(app.menu.opened_at(), Some(20 + MENU_OPEN_DELAY_MS));
}

#[test]
fn opening_time_stops_at_the_largest_number() {
    let mut menu: MenuInteraction<u8> = MenuInteraction::new();
    menu.click_header(MenuType::Edit, 1, u64::MAX - 5);
    assert_eq!(menu.opened_at(), Some(u64::MAX));
    menu.cancel();
    menu.click_header(MenuType::Edit, 1, u64::MAX - 100);
    assert_eq!(menu.opened_at(), Some(u64::MAX));
    menu.cancel();
    menu.click_header(MenuType::Edit, 1, u64::MAX - 101);
    assert_eq!(menu.opened_at(), Some(u64::MAX - 1));
}

#[test]
fn cancel_closes_whatever_is_open() {
    let mut app = App::new();
    app.press_cancel();
    assert_eq!(app.menu.active_menu(), None);
    app.click_menu_header(MenuType::Search, (1.0, 2.0), 0);
    app.press_cancel();
    assert_eq!(app.menu.active_menu(), None);
}

#[test]
fn an_enabled_item_runs_its_action_once_and_closes_the_menu() {
    let mut app = App::new();
    app.click_menu_header(MenuType::File, (0.0, 0.0), 0);
    // "保存" is the fifth item of the file menu.
    assert_eq!(app.click_menu_item(4), Some(Effect::Done));
    assert_eq!(app.status_message, "正在保存文件...");
    assert_eq!(app.menu.active_menu(), None);
    // The menu is closed now: the same click runs nothing.
    app.set_status_message("x".to_string());
    assert_eq!(app.click_menu_item(4), None);
    assert_eq!(app.status_message, "x");
}

#[test]
fn separators_disabled_items_and_misses_run_nothing() {
    let mut app = App::new();
    app.click_menu_header(MenuType::Edit, (0.0, 0.0), 0);
    // Item 5 is the disabled "删除", item 6 a separator, the menu has 8 items.
    for index in [5usize, 6, 8, 99, usize::MAX] {
        assert_eq!(app.click_menu_item(index), None);
        assert_eq!(app.menu.active_menu(), Some(MenuType::Edit));
        assert_eq!(app.status_message, "就绪");
    }
    assert_eq!(app.click_menu_item(7), Some(Effect::Done));
    assert_eq!(app.status_message, "正在生成UUID...");
}

#[test]
fn an_item_without_handler_still_closes_the_menu() {
    let mut app = App::new();
    app.click_menu_header(MenuType::File, (0.0, 0.0), 0);
    // "最近的编辑" names "recent_edit", which nothing handles.
    assert_eq!(app.click_menu_item(1), Some(Effect::Unhandled));
    assert_eq!(app.menu.active_menu(), None);
    assert_eq!(app.status_message, "就绪");
}

#[test]
fn the_standard_menus() {
    let model = MenuModel::standard();
    let file = model.items(MenuType::File);
    assert_eq!(file.len(), 18);
    assert_eq!(file[0].label, "打开文件夹");
    assert_eq!(file[0].shortcut.as_deref(), Some("Ctrl+Shift+O"));
    assert_eq!(file[0].action, "open_folder");
    assert!(file[0].enabled);
    assert!(file[0].submenu.is_none());
    assert!(file[11].is_separator() && file[14].is_separator() && file[16].is_separator());
    assert_eq!(file[11].action, "separator");
    assert!(!file[11].is_interactive());
    assert_eq!(file[17].action, "exit");
    let edit = model.items(MenuType::Edit);
    assert_eq!(edit.len(), 8);
    assert_eq!(edit[5].label, "删除");
    assert!(!edit[5].enabled);
    assert!(!edit[5].is_interactive());
    assert!(edit[4].is_interactive());
    assert_eq!(model.items(MenuType::Navigate)[0].action, "goto_line");
    assert_eq!(model.items(MenuType::Search)[0].action, "find");
    assert_eq!(model.items(MenuType::SqlEditor)[0].action, "new_query");
    assert_eq!(model.items(MenuType::Database)[0].action, "connect_db");
    assert_eq!(model.items(MenuType::Window)[0].shortcut.as_deref(), Some("Ctrl+Shift+N"));
    assert_eq!(model.items(MenuType::Help)[0].label, "关于");
    for menu in [MenuType::Navigate, MenuType::Search, MenuType::SqlEditor, MenuType::Database,
        MenuType::Window, MenuType::Help] {
        assert_eq!(model.items(menu).len(), 1);
    }
}

#[test]
fn menu_items_build_and_copy() {
    let item = MenuItem::new("Save", Some("Ctrl+S"), "save_file");
    assert_eq!(item.label, "Save");
    assert_eq!(item.shortcut, Some("Ctrl+S".to_string()));
    assert_eq!(item.action, "save_file");
    assert!(item.enabled);
    assert!(item.submenu.is_none());
    let off = item.clone().enabled(false);
    assert!(!off.enabled);
    assert_eq!(off.label, "Save");
    assert!(off != item);
    let mut parent = MenuItem::new("More", None, "more");
    parent.submenu = Some(vec![item.clone(), off.clone()]);
    let copy = parent.duplicate();
    assert!(copy == parent);
    assert_eq!(copy.submenu.as_ref().unwrap()[1].enabled, false);
    let empty = MenuModel::empty();
    assert!(empty.items(MenuType::File).is_empty());
}

#[test]
fn headers_follow_the_bar() {
    let headers = UIRenderer::menu_headers();
    let labels: Vec<&str> = headers.iter().map(|h| h.label.as_str()).collect();
    assert_eq!(
        labels,
        vec!["文件(F)", "编辑(E)", "导航(N)", "搜索(A)", "SQL编辑器", "数据库(D)", "窗口(W)", "帮助(H)"]
    );
    assert_eq!(headers[0].menu, MenuType::File);
    assert_eq!(headers[7].menu, MenuType::Help);
    for (i, header) in headers.iter().enumerate() {
        assert_eq!(header.menu.index(), i);
    }
}

#[test]
fn identifiers_name_actions() {
    assert!(matches!(Action::parse("open_folder"), Action::OpenFolder));
    assert!(matches!(Action::parse("toggle_dark_mode"), Action::ToggleDarkMode));
    assert!(matches!(Action::parse("connect_db"), Action::ConnectDb));
    assert!(matches!(Action::parse("file_property"), Action::FileProperty));
    match Action::parse("Open_Folder") {
        Action::Unrecognized(id) => assert_eq!(id, "Open_Folder"),
        other => panic!("{:?}", other),
    }
    assert!(matches!(Action::parse(""), Action::Unrecognized(_)));
    assert!(matches!(Action::parse("separator"), Action::Unrecognized(_)));
}

#[test]
fn every_known_action_leaves_one_message() {
    let table = [
        ("new_file", "已创建新文件"),
        ("open_file", "正在打开文件对话框..."),
        ("save_file", "正在保存文件..."),
        ("save_as", "正在打开另存为对话框..."),
        ("save_all", "正在保存所有打开的文件..."),
        ("close_file", "没有打开的文件"),
        ("print_file", "正在准备打印..."),
        ("rename_file", "正在重命名文件..."),
        ("refresh_file", "正在刷新文件内容..."),
        ("import_file", "正在导入文件..."),
        ("export_file", "正在导出文件..."),
        ("file_property", "正在显示文件属性..."),
        ("undo", "正在撤销上一步操作..."),
        ("redo", "正在重做下一步操作..."),
        ("cut", "正在剪切选中内容..."),
        ("copy", "正在复制选中内容..."),
        ("paste", "正在粘贴内容..."),
        ("delete", "正在删除选中内容..."),
        ("generate_uuid", "正在生成UUID..."),
        ("goto_line", "正在打开跳转到行对话框..."),
        ("find", "正在打开查找对话框..."),
        ("new_query", "正在创建新的SQL查询..."),
        ("connect_db", "正在打开数据库连接对话框..."),
        ("new_window", "正在创建新窗口..."),
        ("about", "正在显示关于信息..."),
        ("exit", "正在退出应用..."),
    ];
    for (id, message) in table {
        let mut app = App::new();
        assert_eq!(app.handle_menu_action(id), Effect::Done, "{}", id);
        assert_eq!(app.status_message, message, "{}", id);
        assert!(app.explorer_tabs.is_empty());
        assert!(!app.is_dark_mode);
    }
}

#[test]
fn unknown_actions_change_nothing() {
    let mut app = App::new();
    app.set_status_message("before".to_string());
    assert_eq!(app.handle_menu_action("find_file"), Effect::Unhandled);
    assert_eq!(app.handle_menu_action("no such thing"), Effect::Unhandled);
    assert_eq!(app.status_message, "before");
    assert_eq!(app.name, "Arthur");
}

#[test]
fn new_and_close_file() {
    let mut app = App::new();
    app.current_file = Some("/tmp/a.sql".to_string());
    assert_eq!(app.handle_menu_action("close_file"), Effect::Done);
    assert_eq!(app.status_message, "正在关闭当前文件...");
    assert_eq!(app.current_file, None);
    app.handle_menu_action("close_file");
    assert_eq!(app.status_message, "没有打开的文件");
    app.current_file = Some("/tmp/b.sql".to_string());
    app.handle_menu_action("new_file");
    assert_eq!(app.current_file, None);
    assert_eq!(app.name, "新文件");
    assert_eq!(app.status_message, "已创建新文件");
}

#[test]
fn dark_mode_flips() {
    let mut app = App::new();
    assert!(!app.is_dark_mode);
    app.toggle_dark_mode();
    assert!(app.is_dark_mode);
    assert_eq!(app.status_message, "已切换到深色模式");
    assert_eq!(app.handle_menu_action("toggle_dark_mode"), Effect::Done);
    assert!(!app.is_dark_mode);
    assert_eq!(app.status_message, "已切换到浅色模式");
}

#[test]
fn a_started_shell() {
    let app = App::default();
    assert_eq!(app.name, "Arthur");
    assert_eq!(app.age, 42);
    assert_eq!(app.menu.active_menu(), None);
    assert_eq!(app.current_file, None);
    assert!(!app.is_dark_mode);
    assert_eq!(app.status_message, "就绪");
    assert_eq!(app.status_message_time, 0);
    assert!(app.explorer_tabs.is_empty());
    assert_eq!(app.active_explorer_tab, None);
    assert_eq!(app.menu_data.items(MenuType::File).len(), 18);
}

#[test]
fn open_folder_makes_the_newest_tab_the_only_active_one() {
    let mut app = App::new();
    assert_eq!(app.handle_menu_action("open_folder"), Effect::PickFolder);
    assert_eq!(app.status_message, "正在打开文件夹...");
    app.open_folder(picked("/home/u/one", vec![file("f", "/home/u/one/f")]));
    assert_eq!(app.status_message, "已打开文件夹: one");
    assert_eq!(app.active_explorer_tab, Some(0));
    app.open_folder(picked("/home/u/two", vec![]));
    app.open_folder(picked("/", vec![dir("etc", "/etc")]));
    assert_eq!(app.status_message, "已打开文件夹: 文件夹");
    assert_eq!(app.explorer_tabs.len(), 3);
    assert_eq!(app.active_explorer_tab, Some(2));
    let flags: Vec<bool> = app.explorer_tabs.iter().map(|t| t.is_active).collect();
    assert_eq!(flags, vec![false, false, true]);
    let paths: Vec<&str> = app.explorer_tabs.iter().map(|t| t.path.as_str()).collect();
    assert_eq!(paths, vec!["/home/u/one", "/home/u/two", "/"]);
}

#[test]
fn a_cancelled_pick_makes_no_tab() {
    let mut app = App::new();
    app.open_folder(picked("/a", vec![]));
    app.handle_menu_action("open_folder");
    app.open_folder(None);
    assert_eq!(app.status_message, "用户取消了文件夹选择");
    assert_eq!(app.explorer_tabs.len(), 1);
    assert_eq!(app.active_explorer_tab, Some(0));
    assert!(app.explorer_tabs[0].is_active);
    let mut fresh = App::new();
    fresh.open_folder(None);
    assert!(fresh.explorer_tabs.is_empty());
    assert_eq!(fresh.active_explorer_tab, None);
}

#[test]
fn choosing_a_tab_makes_it_the_only_active_one() {
    let mut app = App::new();
    app.add_explorer_tab("/a", &vec![]);
    app.add_explorer_tab("/b", &vec![]);
    app.add_explorer_tab("/c", &vec![]);
    app.activate_explorer_tab(1);
    assert_eq!(app.active_explorer_tab, Some(1));
    let flags: Vec<bool> = app.explorer_tabs.iter().map(|t| t.is_active).collect();
    assert_eq!(flags, vec![false, true, false]);
    assert_eq!(app.status_message, "切换到资源管理器: 文件资源管理器");
}

#[test]
fn folders_toggle_in_the_active_tab_with_a_message() {
    let mut app = App::new();
    assert_eq!(app.toggle_folder("/r/d"), ToggleOutcome::Ignored);
    app.add_explorer_tab("/r", &vec![dir("docs", "/r/d"), file("f", "/r/f")]);
    app.add_explorer_tab("/s", &vec![dir("src", "/s/src")]);
    // The first tab is not active: its paths are unknown to the toggle.
    assert_eq!(app.toggle_folder("/r/d"), ToggleOutcome::Ignored);
    app.activate_explorer_tab(0);
    app.set_status_message("-".to_string());
    assert_eq!(app.toggle_folder("/r/d"), ToggleOutcome::NeedsListing);
    assert_eq!(app.status_message, "-");
    assert!(!app.expand_folder("/r/f", &vec![]));
    assert!(app.expand_folder("/r/d", &vec![file("x", "/r/d/x")]));
    assert_eq!(app.status_message, "展开 docs");
    assert!(app.explorer_tabs[0].is_open("/r/d"));
    assert_eq!(app.toggle_folder("/r/d"), ToggleOutcome::Collapsed);
    assert_eq!(app.status_message, "折叠 docs");
    assert_eq!(app.toggle_folder("/r/d"), ToggleOutcome::Expanded);
    assert_eq!(app.status_message, "展开 docs");
    assert_eq!(app.toggle_folder("/r/f"), ToggleOutcome::Ignored);
    assert_eq!(app.status_message, "展开 docs");
    assert!(app.explorer_tabs[1].file_tree[0].awaits_listing());
}

#[test]
fn a_click_on_a_label_names_the_entry() {
    let mut app = App::new();
    app.select_entry("/r/f");
    assert_eq!(app.status_message, "就绪");
    app.add_explorer_tab("/r", &vec![dir("docs", "/r/d"), file("notes.txt", "/r/f")]);
    app.select_entry("/r/f");
    assert_eq!(app.status_message, "打开文件: notes.txt");
    app.select_entry("/r/d");
    assert_eq!(app.status_message, "打开文件夹: docs");
    app.select_entry("/r/nothing");
    assert_eq!(app.status_message, "打开文件夹: docs");
}

#[test]
fn a_message_set_to_stay_does_not_expire() {
    let mut app = App::new();
    app.set_status_message("busy".to_string());
    app.update_status_message(1_000_000);
    assert_eq!(app.status_message, "busy");
    assert_eq!(app.status_message_time, 0);
}

#[test]
fn a_timed_message_gives_way_after_three_seconds() {
    let mut app = App::new();
    app.status_message = "saved".to_string();
    app.status_message_time = 5000;
    app.update_status_message(8000);
    assert_eq!(app.status_message, "saved");
    app.update_status_message(4000);
    assert_eq!(app.status_message, "saved");
    app.update_status_message(8001);
    assert_eq!(app.status_message, "就绪");
    assert_eq!(app.status_message_time, 0);
    // The idle message keeps its time.
    app.status_message_time = 7;
    app.update_status_message(u64::MAX);
    assert_eq!(app.status_message_time, 7);
}

#[test]
fn closing_a_tab_keeps_the_others_and_follows_the_active_one() {
    let mut app = App::new();
    assert!(app.close_explorer_tab(0).is_none());
    app.add_explorer_tab("/a", &vec![]);
    app.add_explorer_tab("/b", &vec![]);
    app.add_explorer_tab("/c", &vec![]);
    let closed = app.close_explorer_tab(0).unwrap();
    assert_eq!(closed.path, "/a");
    assert_eq!(app.active_explorer_tab, Some(1));
    assert!(app.explorer_tabs[1].is_active && !app.explorer_tabs[0].is_active);
    assert!(app.close_explorer_tab(2).is_none());
    let closed = app.close_explorer_tab(1).unwrap();
    assert_eq!(closed.path, "/c");
    assert_eq!(app.active_explorer_tab, None);
    assert_eq!(app.explorer_tabs.len(), 1);
    assert!(!app.explorer_tabs[0].is_active);
    app.activate_explorer_tab(0);
    assert!(app.explorer_tabs[0].is_active);
}

#[test]
fn events_step_the_menu_state() {
    let model = MenuModel::standard();
    let mut menu: MenuInteraction<(i32, i32)> = MenuInteraction::new();
    assert_eq!(menu.step(&model, MenuEvent::ItemClicked { index: 0 }), None);
    assert_eq!(menu.active_menu(), None);
    let open = MenuEvent::HeaderClicked { menu: MenuType::Edit, anchor: (3, 9), now: 40 };
    assert_eq!(menu.step(&model, open), None);
    assert_eq!(menu.active_menu(), Some(MenuType::Edit));
    assert_eq!(menu.step(&model, MenuEvent::ItemClicked { index: 5 }), None);
    assert_eq!(menu.step(&model, MenuEvent::ItemClicked { index: 6 }), None);
    assert_eq!(menu.active_menu(), Some(MenuType::Edit));
    assert_eq!(
        menu.step(&model, MenuEvent::ItemClicked { index: 2 }),
        Some("cut".to_string())
    );
    assert_eq!(menu.active_menu(), None);
    let open = MenuEvent::HeaderClicked { menu: MenuType::Help, anchor: (3, 9), now: 50 };
    menu.step(&model, open);
    assert_eq!(menu.step(&model, MenuEvent::CancelPressed), None);
    assert_eq!(menu.active_menu(), None);
    assert_eq!(menu.anchor(), None);
}

use shell_explorer::explorer::{ExplorerTab, PathSet, ToggleOutcome};
use shell_explorer::loader::{DirectoryLoader, ListedEntry};
use shell_explorer::tree::{find_entry, graft_entry, FileItem};
use shell_explorer::ui::UIRenderer;

fn dir(name: &str, path: &str) -> ListedEntry {
    ListedEntry { name: name.to_string(), path: path.to_string(), is_directory: true }
}

fn file(name: &str, path: &str) -> ListedEntry {
    ListedEntry { name: name.to_string(), path: path.to_string(), is_directory: false }
}

fn names(items: &Vec<FileItem>) -> Vec<String> {
    items.iter().map(|item| item.name.clone()).collect()
}

#[test]
fn listing_puts_directories_first_and_ignores_case() {
    let read = vec![dir("b", "/r/b"), dir("A", "/r/A"), file("z.txt", "/r/z.txt")];
    let listed = DirectoryLoader::arrange(&read);
    assert_eq!(names(&listed), vec!["A", "b", "z.txt"]);
    assert!(listed[0].is_directory && listed[1].is_directory && !listed[2].is_directory);
    assert_eq!(listed[0].path, "/r/A");
    assert_eq!(listed[2].path, "/r/z.txt");
}

#[test]
fn listing_orders_files_after_all_directories() {
    let read = vec![
        file("alpha", "/alpha"),
        dir("zeta", "/zeta"),
        file("Beta", "/Beta"),
        dir("Eta", "/Eta"),
        file("ALPHA2", "/ALPHA2"),
    ];
    let listed = DirectoryLoader::arrange(&read);
    assert_eq!(names(&listed), vec!["Eta", "zeta", "alpha", "ALPHA2", "Beta"]);
}

#[test]
fn listing_keeps_the_read_order_of_names_that_differ_in_case_only() {
    let read = vec![file("readme", "/1"), file("README", "/2"), file("ReadMe", "/3")];
    let listed = DirectoryLoader::arrange(&read);
    assert_eq!(names(&listed), vec!["readme", "README", "ReadMe"]);
    let read = vec![file("README", "/2"), file("ReadMe", "/3"), file("readme", "/1")];
    let listed = DirectoryLoader::arrange(&read);
    assert_eq!(names(&listed), vec!["README", "ReadMe", "readme"]);
}

#[test]
fn listing_drops_hidden_entries() {
    let read = vec![
        file(".gitignore", "/r/.gitignore"),
        dir(".git", "/r/.git"),
        file("...", "/r/..."),
        file("a.b", "/r/a.b"),
    ];
    let listed = DirectoryLoader::arrange(&read);
    assert_eq!(names(&listed), vec!["a.b"]);
    assert!(DirectoryLoader::is_hidden(".x"));
    assert!(DirectoryLoader::is_hidden("."));
    assert!(!DirectoryLoader::is_hidden("x."));
    assert!(!DirectoryLoader::is_hidden(""));
}

#[test]
fn listing_of_nothing_is_empty() {
    let listed = DirectoryLoader::arrange(&Vec::new());
    assert!(listed.is_empty());
}

#[test]
fn listing_seeds_directories_with_the_placeholder() {
    let read = vec![dir("d", "/d"), file("f", "/f")];
    let listed = DirectoryLoader::arrange(&read);
    assert_eq!(listed[0].children.len(), 1);
    let seed = &listed[0].children[0];
    assert_eq!(seed.name, "...");
    assert_eq!(seed.path, "");
    assert!(!seed.is_directory);
    assert!(seed.children.is_empty());
    assert!(seed.is_placeholder());
    assert!(listed[0].awaits_listing());
    assert!(listed[1].children.is_empty());
    assert!(!listed[1].awaits_listing());
    assert!(!listed[0].is_placeholder());
    assert!(FileItem::placeholder().is_placeholder());
}

#[test]
fn names_compare_by_lowercase_bytes() {
    let a = DirectoryLoader::seed(&file("Zebra", "/1"));
    let b = DirectoryLoader::seed(&file("apple", "/2"));
    assert!(DirectoryLoader::comes_before(&b, &a));
    assert!(!DirectoryLoader::comes_before(&a, &b));
    let short = DirectoryLoader::seed(&file("ab", "/3"));
    let long = DirectoryLoader::seed(&file("ABC", "/4"));
    assert!(DirectoryLoader::comes_before(&short, &long));
    assert!(!DirectoryLoader::comes_before(&long, &short));
    let same = DirectoryLoader::seed(&file("AB", "/5"));
    assert!(!DirectoryLoader::comes_before(&short, &same));
    assert!(!DirectoryLoader::comes_before(&same, &short));
    let d = DirectoryLoader::seed(&dir("zzz", "/6"));
    assert!(DirectoryLoader::comes_before(&d, &b));
    assert!(!DirectoryLoader::comes_before(&b, &d));
    let accented = DirectoryLoader::seed(&file("Éclair", "/7"));
    let plain = DirectoryLoader::seed(&file("zoo", "/8"));
    assert!(DirectoryLoader::comes_before(&plain, &accented));
}

#[test]
fn toggle_asks_for_one_listing_only() {
    let mut loads = 0;
    let mut tab = ExplorerTab::new("/r", &vec![dir("src", "/r/src"), file("x", "/r/x")]);
    assert_eq!(tab.toggle("/r/src"), ToggleOutcome::NeedsListing);
    assert!(!tab.is_open("/r/src"));
    loads += 1;
    let read = vec![file("main.rs", "/r/src/main.rs"), dir("bin", "/r/src/bin")];
    assert!(tab.expand_with("/r/src", &read));
    assert!(tab.is_open("/r/src"));
    let first: Vec<String> = names(&tab.file_tree[0].children);
    assert_eq!(first, vec!["bin", "main.rs"]);

    assert_eq!(tab.toggle("/r/src"), ToggleOutcome::Collapsed);
    assert!(!tab.is_open("/r/src"));
    assert_eq!(names(&tab.file_tree[0].children), first);

    assert_eq!(tab.toggle("/r/src"), ToggleOutcome::Expanded);
    assert!(tab.is_open("/r/src"));
    assert_eq!(names(&tab.file_tree[0].children), first);
    assert_eq!(loads, 1);
}

#[test]
fn expand_with_never_replaces_listed_children() {
    let mut tab = ExplorerTab::new("/r", &vec![dir("d", "/r/d")]);
    assert!(tab.expand_with("/r/d", &vec![file("one", "/r/d/one")]));
    assert!(!tab.expand_with("/r/d", &vec![file("two", "/r/d/two")]));
    assert_eq!(names(&tab.file_tree[0].children), vec!["one"]);
    tab.toggle("/r/d");
    assert!(!tab.expand_with("/r/d", &vec![file("two", "/r/d/two")]));
    assert_eq!(names(&tab.file_tree[0].children), vec!["one"]);
    assert!(!tab.is_open("/r/d"));
}

#[test]
fn an_unreadable_directory_opens_empty_and_is_not_read_again() {
    let mut tab = ExplorerTab::new("/r", &vec![dir("locked", "/r/locked")]);
    assert_eq!(tab.toggle("/r/locked"), ToggleOutcome::NeedsListing);
    assert!(tab.expand_with("/r/locked", &Vec::new()));
    assert!(tab.file_tree[0].children.is_empty());
    assert_eq!(tab.toggle("/r/locked"), ToggleOutcome::Collapsed);
    assert_eq!(tab.toggle("/r/locked"), ToggleOutcome::Expanded);
}

#[test]
fn toggle_ignores_files_and_unknown_paths() {
    let mut tab = ExplorerTab::new("/r", &vec![dir("d", "/r/d"), file("f", "/r/f")]);
    assert_eq!(tab.toggle("/r/f"), ToggleOutcome::Ignored);
    assert_eq!(tab.toggle("/nowhere"), ToggleOutcome::Ignored);
    assert_eq!(tab.toggle(""), ToggleOutcome::Ignored);
    assert!(!tab.expand_with("/r/f", &vec![file("g", "/r/f/g")]));
    assert!(!tab.expand_with("/nowhere", &Vec::new()));
    assert_eq!(tab.expanded_paths.len(), 0);
    assert!(tab.file_tree[1].children.is_empty());
    assert!(tab.file_tree[0].awaits_listing());
}

#[test]
fn a_new_tab_is_active_named_and_closed() {
    let tab = ExplorerTab::new("/home/u", &vec![file("f", "/home/u/f")]);
    assert_eq!(tab.name, "文件资源管理器");
    assert_eq!(tab.path, "/home/u");
    assert!(tab.is_active);
    assert_eq!(tab.expanded_paths.len(), 0);
    assert_eq!(names(&tab.file_tree), vec!["f"]);
}

#[test]
fn nested_directories_expand_by_path() {
    let mut tab = ExplorerTab::new("/r", &vec![dir("a", "/r/a"), dir("b", "/r/b")]);
    assert!(tab.expand_with("/r/a", &vec![dir("in", "/r/a/in")]));
    assert_eq!(tab.toggle("/r/a/in"), ToggleOutcome::NeedsListing);
    assert!(tab.expand_with("/r/a/in", &vec![file("deep", "/r/a/in/deep")]));
    let found = find_entry(&tab.file_tree, "/r/a/in/deep").unwrap();
    assert_eq!(found.name, "deep");
    assert!(find_entry(&tab.file_tree, "/r/b").unwrap().awaits_listing());
    assert!(find_entry(&tab.file_tree, "/r/c").is_none());
}

#[test]
fn find_takes_the_first_in_pre_order() {
    let mut tree = DirectoryLoader::arrange(&vec![dir("a", "/a"), dir("b", "/twice")]);
    let inner = DirectoryLoader::arrange(&vec![file("first", "/twice")]);
    assert!(graft_entry(&mut tree, "/a", inner).is_none());
    assert_eq!(find_entry(&tree, "/twice").unwrap().name, "first");
    // Without a target the children come back and the tree stays.
    let spare = DirectoryLoader::arrange(&vec![file("s", "/s")]);
    let back = graft_entry(&mut tree, "/none", spare).unwrap();
    assert_eq!(names(&back), vec!["s"]);
    assert_eq!(names(&tree), vec!["a", "b"]);
}

#[test]
fn rows_descend_only_into_open_directories() {
    let mut tab = ExplorerTab::new("/r", &vec![dir("a", "/r/a"), file("z", "/r/z")]);
    let rows = UIRenderer::file_rows(&tab);
    assert_eq!(rows.len(), 2);
    assert!(!rows[0].is_open);

    tab.expand_with("/r/a", &vec![dir("in", "/r/a/in"), file("f", "/r/a/f")]);
    tab.expand_with("/r/a/in", &vec![file("deep", "/r/a/in/deep")]);
    let rows = UIRenderer::file_rows(&tab);
    let shown: Vec<(usize, &str, bool)> =
        rows.iter().map(|r| (r.depth, r.name.as_str(), r.is_open)).collect();
    assert_eq!(
        shown,
        vec![(0, "a", true), (1, "in", true), (2, "deep", false), (1, "f", false), (0, "z", false)]
    );

    // Closing the outer directory hides what is below, though it stays loaded.
    tab.toggle("/r/a");
    let rows = UIRenderer::file_rows(&tab);
    let shown: Vec<&str> = rows.iter().map(|r| r.name.as_str()).collect();
    assert_eq!(shown, vec!["a", "z"]);
    assert!(tab.is_open("/r/a/in"));
    tab.toggle("/r/a");
    assert_eq!(UIRenderer::file_rows(&tab).len(), 5);
    assert_eq!(UIRenderer::tab_heading(&tab), "文件资源管理器 - /r");
}

#[test]
fn path_set_inserts_and_removes() {
    let mut set = PathSet::new();
    assert!(!set.contains("/a"));
    assert!(set.insert("/a"));
    assert!(!set.insert("/a"));
    assert!(set.insert("/b"));
    assert_eq!(set.len(), 2);
    assert!(set.remove("/a"));
    assert!(!set.remove("/a"));
    assert!(set.contains("/b"));
    assert_eq!(set.len(), 1);
}

#[test]
fn entries_copy_with_what_is_below() {
    let mut tab = ExplorerTab::new("/r", &vec![dir("a", "/r/a")]);
    tab.expand_with("/r/a", &vec![dir("in", "/r/a/in"), file("f", "/r/a/f")]);
    let copy = tab.file_tree[0].clone();
    assert_eq!(copy.name, "a");
    assert_eq!(names(&copy.children), vec!["in", "f"]);
    assert!(copy.children[0].awaits_listing());
    assert!(!copy.awaits_listing());
}

use easy_imgui_core::chooser::entry::{compare_entries, EntryMetadata, FileEntry, FileEntryKind, SortDirection, SortSpec};
use easy_imgui_core::chooser::filter::{Filter, FilterId};
use easy_imgui_core::chooser::sort::stable_sort_entries;
use easy_imgui_core::chooser::state::{Activation, ApplicablePathRes, FileChooser, Flags, ScrollRequest};
use easy_imgui_core::chooser::dirs::{
    analyze_ancestor, analyze_existing, mark_zip_dirs, set_locale, AncestorStep, PathKind, ZipAnalyzeResult,
};
use easy_imgui_core::chooser::pathbar::path_buttons;
use easy_imgui_core::text::Order;

fn file(name: &str, size: u64, modified: i128) -> FileEntry {
    FileEntry { name: name.to_string(), kind: FileEntryKind::File, size: Some(size), modified: Some(modified), hidden: name.starts_with('.') }
}

fn dir(name: &str) -> FileEntry {
    FileEntry { name: name.to_string(), kind: FileEntryKind::Directory, size: None, modified: None, hidden: name.starts_with('.') }
}

fn names(c: &FileChooser) -> Vec<String> {
    c.entries().iter().map(|e| e.name.clone()).collect()
}

fn visible_names(c: &FileChooser) -> Vec<String> {
    c.visible_entries().iter().map(|&i| c.entries()[i].name.clone()).collect()
}

fn by_name() -> Vec<SortSpec> {
    vec![SortSpec { column: 1, direction: SortDirection::Ascending }]
}

fn filter(id: i32, text: &str, globs: &[&str]) -> Filter {
    Filter { id: FilterId(id), text: text.to_string(), globs: globs.iter().map(|g| g.to_string()).collect() }
}

fn listing() -> Vec<FileEntry> {
    vec![file("b.txt", 10, 5), dir("src"), file("a.rs", 30, 1), file(".hidden", 1, 1), file("README.md", 20, 9)]
}

fn loaded() -> FileChooser {
    let mut c = FileChooser::new();
    c.load_dir("/home/user".to_string(), listing());
    c.update_listing(&by_name(), false);
    c
}

#[test]
fn new_chooser_is_empty() {
    let c = FileChooser::new();
    assert_eq!(c.path(), "");
    assert!(c.entries().is_empty());
    assert_eq!(c.file_name(), "");
    assert_eq!(c.active_filter(), None);
    assert!(!c.read_only());
    assert!(c.selected_entry().is_none());
}

#[test]
fn load_dir_adds_parent_entry() {
    let mut c = FileChooser::new();
    c.load_dir("/home/user".to_string(), listing());
    assert_eq!(names(&c), vec!["..", "b.txt", "src", "a.rs", ".hidden", "README.md"]);
    assert_eq!(c.entries()[0].kind, FileEntryKind::Parent);
    assert_eq!(c.path(), "/home/user");
}

#[test]
fn load_dir_of_root_has_no_parent_entry() {
    let mut c = FileChooser::new();
    c.load_dir("/".to_string(), vec![dir("usr")]);
    assert_eq!(names(&c), vec!["usr"]);
    // "/x" has parent "/", which is not empty.
    c.load_dir("/x".to_string(), vec![]);
    assert_eq!(names(&c), vec![".."]);
}

#[test]
fn load_dir_selects_typed_name() {
    let mut c = FileChooser::new();
    c.edit_file_name("a.rs".to_string());
    c.load_dir("/p".to_string(), listing());
    assert_eq!(c.selected_entry().unwrap().name, "a.rs");
    c.edit_file_name("zzz".to_string());
    c.load_dir("/p".to_string(), listing());
    assert!(c.selected_entry().is_none());
}

#[test]
fn sort_by_name_keeps_parent_first() {
    let c = loaded();
    assert_eq!(names(&c), vec!["..", ".hidden", "README.md", "a.rs", "b.txt", "src"]);
}

#[test]
fn sort_descending_keeps_parent_first() {
    let mut c = loaded();
    c.resort_entries(&vec![SortSpec { column: 1, direction: SortDirection::Descending }]);
    assert_eq!(names(&c), vec!["..", "src", "b.txt", "a.rs", "README.md", ".hidden"]);
}

#[test]
fn sort_by_kind_then_size_is_stable() {
    let mut c = loaded();
    let specs = vec![
        SortSpec { column: 0, direction: SortDirection::Ascending },
        SortSpec { column: 2, direction: SortDirection::Descending },
    ];
    c.resort_entries(&specs);
    assert_eq!(names(&c), vec!["..", "src", "a.rs", "README.md", "b.txt", ".hidden"]);
}

#[test]
fn sort_ignores_unknown_and_unsorted_columns() {
    let input = vec![file("b", 1, 0), file("a", 1, 0), file("c", 1, 0)];
    let specs = vec![
        SortSpec { column: 7, direction: SortDirection::Ascending },
        SortSpec { column: 1, direction: SortDirection::Unsorted },
    ];
    let out = stable_sort_entries(input, &specs);
    let n: Vec<&str> = out.iter().map(|e| e.name.as_str()).collect();
    assert_eq!(n, vec!["b", "a", "c"]);
}

#[test]
fn sort_by_modification_time() {
    let input = vec![file("x", 1, 30), dir("d"), file("y", 1, -5), file("z", 1, 30)];
    let specs = vec![SortSpec { column: 3, direction: SortDirection::Ascending }];
    let out = stable_sort_entries(input, &specs);
    let n: Vec<&str> = out.iter().map(|e| e.name.as_str()).collect();
    assert_eq!(n, vec!["d", "y", "x", "z"]);
}

#[test]
fn compare_entries_parent_always_first() {
    let p = FileEntry::dot_dot();
    let f = file("a", 1, 1);
    let desc = vec![SortSpec { column: 1, direction: SortDirection::Descending }];
    assert_eq!(compare_entries(&desc, &p, &f), Order::Less);
    assert_eq!(compare_entries(&desc, &f, &p), Order::Greater);
    assert_eq!(compare_entries(&desc, &p, &p), Order::Equal);
}

#[test]
fn resort_keeps_selection() {
    let mut c = FileChooser::new();
    c.load_dir("/p".to_string(), listing());
    c.set_file_name("src".to_string());
    assert_eq!(c.selected_entry().unwrap().name, "src");
    c.resort_entries(&by_name());
    assert_eq!(c.selected_entry().unwrap().name, "src");
}

#[test]
fn hidden_entries_toggle() {
    let mut c = loaded();
    assert_eq!(visible_names(&c), vec!["..", "README.md", "a.rs", "b.txt", "src"]);
    c.toggle_hidden();
    c.update_listing(&by_name(), false);
    assert_eq!(visible_names(&c), vec!["..", ".hidden", "README.md", "a.rs", "b.txt", "src"]);
    c.toggle_hidden();
    c.update_listing(&by_name(), false);
    assert_eq!(visible_names(&c), vec!["..", "README.md", "a.rs", "b.txt", "src"]);
}

#[test]
fn search_is_case_insensitive() {
    let mut c = loaded();
    c.set_search_term("ReAd".to_string());
    c.update_listing(&by_name(), false);
    assert_eq!(visible_names(&c), vec!["..", "README.md"]);
    c.set_search_term("x".to_string());
    c.update_listing(&by_name(), false);
    // ".." is not searched; "b.txt" matches.
    assert_eq!(visible_names(&c), vec!["..", "b.txt"]);
}

#[test]
fn filters_apply_to_files_only() {
    let mut c = loaded();
    c.add_filter(filter(1, "Rust", &["*.RS"]));
    c.update_listing(&by_name(), false);
    assert_eq!(visible_names(&c), vec!["..", "a.rs", "src"]);
    assert_eq!(c.active_filter(), Some(FilterId(1)));
}

#[test]
fn filter_matching() {
    let all = filter(0, "All", &[]);
    assert!(all.matches("anything"));
    let txt = filter(1, "Text", &["*.txt", "*.md"]);
    assert!(txt.matches("notes.TXT"));
    assert!(txt.matches("a.md"));
    assert!(!txt.matches("a.rs"));
    let bad = filter(2, "Bad", &["[*"]);
    assert!(!bad.matches("[x"));
}

#[test]
fn set_file_name_picks_filter_and_entry() {
    let mut c = loaded();
    c.add_filter(filter(1, "Text", &["*.txt"]));
    c.add_filter(filter(2, "Rust", &["*.rs"]));
    assert_eq!(c.active_filter(), Some(FilterId(1)));
    c.set_file_name("a.rs".to_string());
    assert_eq!(c.active_filter(), Some(FilterId(2)));
    assert_eq!(c.selected_entry().unwrap().name, "a.rs");
    assert_eq!(c.file_name(), "a.rs");
    // An empty name changes nothing else.
    c.set_file_name(String::new());
    assert_eq!(c.active_filter(), Some(FilterId(2)));
    assert_eq!(c.selected_entry().unwrap().name, "a.rs");
}

#[test]
fn add_filter_follows_typed_name() {
    let mut c = FileChooser::new();
    c.edit_file_name("x.rs".to_string());
    c.add_filter(filter(1, "Text", &["*.txt"]));
    assert_eq!(c.active_filter(), Some(FilterId(1)));
    c.add_filter(filter(2, "Rust", &["*.rs"]));
    assert_eq!(c.active_filter(), Some(FilterId(2)));
    c.add_filter(filter(3, "All", &[]));
    assert_eq!(c.active_filter(), Some(FilterId(2)));
    c.set_active_filter(FilterId(3));
    assert_eq!(c.active_filter(), Some(FilterId(3)));
    c.set_active_filter(FilterId(99));
    assert_eq!(c.active_filter(), Some(FilterId(3)));
    assert_eq!(c.active_filter_index(), 2);
}

#[test]
fn applicable_path_cases() {
    let mut c = loaded();
    assert_eq!(c.applicable_path(), (String::new(), ApplicablePathRes::Forbidden));
    c.edit_file_name(".".to_string());
    assert_eq!(c.applicable_path(), ("/home/user".to_string(), ApplicablePathRes::Directory));
    c.edit_file_name("..".to_string());
    assert_eq!(c.applicable_path(), ("/home".to_string(), ApplicablePathRes::Directory));
    c.edit_file_name("src".to_string());
    assert_eq!(c.applicable_path(), ("/home/user/src".to_string(), ApplicablePathRes::Directory));
    c.edit_file_name("a.rs".to_string());
    assert_eq!(c.applicable_path(), ("/home/user/a.rs".to_string(), ApplicablePathRes::ExistingFile));
    c.edit_file_name("README".to_string());
    assert_eq!(c.applicable_path(), ("/home/user/README.md".to_string(), ApplicablePathRes::ExistingFile));
    c.edit_file_name("new.txt".to_string());
    assert_eq!(c.applicable_path(), ("/home/user/new.txt".to_string(), ApplicablePathRes::NewEntry));
    c.add_flags(Flags::must_exist());
    assert_eq!(c.applicable_path(), ("/home/user/new.txt".to_string(), ApplicablePathRes::Forbidden));
    assert!(!c.can_ok());
    c.remove_flags(Flags::must_exist());
    assert!(c.can_ok());
}

#[test]
fn full_path_default_extension() {
    let mut c = loaded();
    c.edit_file_name("new".to_string());
    assert_eq!(c.full_path(Some("txt")), "/home/user/new.txt");
    assert_eq!(c.full_path(None), "/home/user/new");
    c.edit_file_name("new.dat".to_string());
    assert_eq!(c.full_path(Some("txt")), "/home/user/new.dat");
    c.edit_file_name("README".to_string());
    assert_eq!(c.full_path(Some("txt")), "/home/user/README.md");
}

#[test]
fn activate_entries() {
    let mut c = loaded();
    // listing: "..", ".hidden", "README.md", "a.rs", "b.txt", "src"
    assert_eq!(c.activate_entry(3, false), Activation::Stay);
    assert_eq!(c.file_name(), "a.rs");
    assert_eq!(c.activate_entry(3, true), Activation::Accept);
    assert_eq!(c.activate_entry(5, true), Activation::Navigate("/home/user/src".to_string()));
    assert_eq!(c.activate_entry(0, true), Activation::Navigate("/home".to_string()));
    assert_eq!(c.selected_entry().unwrap().name, "..");
}

#[test]
fn press_ok_actions() {
    let mut c = loaded();
    assert_eq!(c.press_ok(), Activation::Stay);
    c.edit_file_name("src".to_string());
    assert_eq!(c.press_ok(), Activation::Navigate("/home/user/src".to_string()));
    c.edit_file_name("b.txt".to_string());
    assert_eq!(c.press_ok(), Activation::Accept);
    c.edit_file_name("other".to_string());
    assert_eq!(c.press_ok(), Activation::Accept);
}

#[test]
fn scroll_requests() {
    let mut c = FileChooser::new();
    c.load_dir("/home/user".to_string(), listing());
    c.set_file_name("b.txt".to_string());
    c.update_listing(&by_name(), false);
    // visible: "..", "README.md", "a.rs", "b.txt", "src"
    assert_eq!(c.take_scroll_request(), ScrollRequest::ToRow(3));
    assert_eq!(c.take_scroll_request(), ScrollRequest::Keep);
    c.set_file_name(".hidden".to_string());
    c.set_search_term(String::new());
    c.update_listing(&by_name(), false);
    assert_eq!(c.take_scroll_request(), ScrollRequest::ToTop);
}

#[test]
fn roots_listing() {
    let mut c = loaded();
    let roots = vec![FileEntry { name: "D:\\".into(), kind: FileEntryKind::Root, size: None, modified: None, hidden: false }];
    c.show_roots(roots);
    assert_eq!(c.path(), "");
    assert_eq!(names(&c), vec!["D:\\"]);
    assert!(c.selected_entry().is_none());
    assert_eq!(c.search_term(), "");
}

#[test]
fn read_only_flag() {
    let mut c = FileChooser::new();
    assert!(!c.read_only());
    c.set_read_only(true);
    assert!(!c.read_only());
    c.add_flags(Flags::show_read_only());
    assert!(c.flags().contains(Flags::show_read_only()));
    c.set_read_only(true);
    assert!(c.read_only());
    c.remove_flags(Flags::show_read_only());
    assert!(!c.flags().contains(Flags::show_read_only()));
    assert!(!c.read_only());
}

#[test]
fn popup_dirs_sorted_and_marked() {
    let mut c = loaded();
    let parent = c.popup_parent("/home/user").unwrap();
    assert_eq!(parent, "/home");
    let shown = c.set_popup_dirs("/home/user", &parent, vec![dir("zeta"), file("f", 1, 1), dir("user"), dir(".cache"), dir("alpha")]);
    assert!(shown);
    assert_eq!(
        c.popup_dirs().clone(),
        vec![("/home/alpha".to_string(), false), ("/home/user".to_string(), true), ("/home/zeta".to_string(), false)]
    );
    assert!(c.popup_parent("/").is_none());
    let roots = vec![
        FileEntry { name: "/".into(), kind: FileEntryKind::Root, size: None, modified: None, hidden: false },
    ];
    assert!(c.set_popup_roots("/", roots));
    assert_eq!(c.popup_dirs().clone(), vec![("/".to_string(), true)]);
    assert!(!c.set_popup_dirs("/x", "/", vec![file("only", 1, 1)]));
}

#[test]
fn path_operations_through_chooser() {
    let mut c = FileChooser::new();
    assert_eq!(c.popup_parent("/a/b"), Some("/a".to_string()));
    assert_eq!(c.popup_parent("/"), None);
    c.load_dir("/srv".to_string(), vec![file("x.tar.gz", 1, 1), file(".bashrc", 1, 1), file("notes.txt", 1, 1)]);
    c.update_listing(&by_name(), false);
    c.toggle_hidden();
    c.update_listing(&by_name(), false);
    // A typed name with an extension of its own is not looked up by stem.
    c.edit_file_name("x.tar".to_string());
    assert_eq!(c.applicable_path(), ("/srv/x.tar".to_string(), ApplicablePathRes::NewEntry));
    c.edit_file_name("notes".to_string());
    assert_eq!(c.applicable_path(), ("/srv/notes.txt".to_string(), ApplicablePathRes::ExistingFile));
    c.edit_file_name("x".to_string());
    assert_eq!(c.applicable_path(), ("/srv/x".to_string(), ApplicablePathRes::NewEntry));
    assert_eq!(c.full_path(Some("zip")), "/srv/x.zip");
    c.edit_file_name(".bashrc".to_string());
    assert_eq!(c.full_path(Some("zip")), "/srv/.bashrc");
}

#[test]
fn search_lowercases_beyond_ascii() {
    let mut c = FileChooser::new();
    c.load_dir("/srv".to_string(), vec![file("ÀÉ.txt", 1, 1), file("other", 1, 1)]);
    c.set_search_term("àé".to_string());
    c.update_listing(&by_name(), false);
    assert_eq!(visible_names(&c), vec!["..", "ÀÉ.txt"]);
}

#[test]
fn zip_entries_as_directories() {
    let out = mark_zip_dirs(vec![file("a.zip", 1, 1), file("b.txt", 1, 1), dir("c.zip"), file("D.ZIP", 1, 1)]);
    let kinds: Vec<FileEntryKind> = out.iter().map(|e| e.kind).collect();
    assert_eq!(kinds, vec![FileEntryKind::Directory, FileEntryKind::File, FileEntryKind::Directory, FileEntryKind::File]);
}

#[test]
fn zip_analysis_steps() {
    assert_eq!(analyze_existing("/a/b", PathKind::Directory), Some(ZipAnalyzeResult::Regular("/a/b".to_string())));
    assert_eq!(analyze_existing("/a/b.txt", PathKind::File), Some(ZipAnalyzeResult::Regular("/a/b.txt".to_string())));
    assert_eq!(analyze_existing("/a/b.zip", PathKind::File), None);
    assert_eq!(analyze_existing("/a/b.zip/x", PathKind::Missing), None);
    match analyze_ancestor("/a/b.zip/x/y", "/a/b.zip", PathKind::File) {
        AncestorStep::Done(r) => assert_eq!(r, ZipAnalyzeResult::Zip { zip_name: "/a/b.zip".to_string(), inner: "x/y".to_string() }),
        AncestorStep::Up => panic!("expected an answer"),
    }
    match analyze_ancestor("/a/b.zip/x/y", "/a", PathKind::Directory) {
        AncestorStep::Done(r) => assert_eq!(r, ZipAnalyzeResult::Regular("/a/b.zip/x/y".to_string())),
        AncestorStep::Up => panic!("expected an answer"),
    }
    assert!(matches!(analyze_ancestor("/a/b.zip/x/y", "/a/b.zip/x", PathKind::Missing), AncestorStep::Up));
}

#[test]
fn locale_is_accepted() {
    set_locale("es");
}

#[test]
fn entry_from_metadata() {
    let meta = EntryMetadata { is_dir: false, len: 42, modified: Some(7), attributes: 0 };
    let e = FileEntry::from_metadata("notes.txt".to_string(), Some(meta), false);
    assert_eq!((e.kind, e.size, e.modified, e.hidden), (FileEntryKind::File, Some(42), Some(7), false));
    let d = FileEntry::from_metadata(".cache".to_string(), Some(EntryMetadata { is_dir: true, ..meta }), false);
    assert_eq!((d.kind, d.size, d.modified, d.hidden), (FileEntryKind::Directory, None, Some(7), true));
    let u = FileEntry::from_metadata(".x".to_string(), None, false);
    assert_eq!((u.kind, u.size, u.modified, u.hidden), (FileEntryKind::File, None, None, true));
    let w = FileEntry::from_metadata(".x".to_string(), Some(meta), true);
    assert!(!w.hidden);
    let wh = FileEntry::from_metadata("x".to_string(), Some(EntryMetadata { attributes: 2 | 32, ..meta }), true);
    assert!(wh.hidden);
    let wn = FileEntry::from_metadata("x".to_string(), None, true);
    assert!(!wn.hidden);
    let empty = FileEntry::from_metadata(String::new(), None, false);
    assert!(!empty.hidden);
}

#[test]
fn path_bar_buttons() {
    let b = path_buttons("/home/user");
    assert_eq!(
        b,
        vec![
            ("/".to_string(), "/".to_string()),
            ("home".to_string(), "/home".to_string()),
            ("user".to_string(), "/home/user".to_string()),
        ]
    );
    assert_eq!(path_buttons("a/b"), vec![("a".to_string(), "a".to_string()), ("b".to_string(), "a/b".to_string())]);
    assert!(path_buttons("").is_empty());
    assert_eq!(path_buttons("/a/./b"), vec![("/".to_string(), "/".to_string()), ("a".to_string(), "/a".to_string()), ("b".to_string(), "/a/b".to_string())]);
}

#[test]
fn default_extension_not_used_for_listed_file() {
    let mut c = FileChooser::new();
    c.load_dir("/d".to_string(), vec![file("data", 1, 1), file("other.txt", 1, 1)]);
    c.set_search_term("other".to_string());
    c.update_listing(&by_name(), false);
    assert_eq!(visible_names(&c), vec!["..", "other.txt"]);
    c.edit_file_name("data".to_string());
    assert_eq!(c.full_path(Some("txt")), "/d/data");
    c.edit_file_name("fresh".to_string());
    assert_eq!(c.full_path(Some("txt")), "/d/fresh.txt");
    assert_eq!(c.try_full_path(Some("t/x")), None);
    assert_eq!(c.try_full_path(Some("txt")), Some("/d/fresh.txt".to_string()));
    assert_eq!(c.try_full_path(None), Some("/d/fresh".to_string()));
}

#[test]
fn failed_load_empties_listing() {
    let mut c = loaded();
    c.set_file_name("a.rs".to_string());
    assert!(c.selected_entry().is_some());
    c.load_failed();
    assert!(c.entries().is_empty());
    assert!(c.selected_entry().is_none());
    assert_eq!(c.path(), "/home/user");
    assert_eq!(c.file_name(), "a.rs");
}

use easy_imgui_core::chooser::dirs::FileSystemDirEnum;
use easy_imgui_core::chooser::entry::{FileEntry, FileEntryKind};
use easy_imgui_core::chooser::zipdir::{ZipDirEnum, ZipMember, ZipReadError};

fn member(name: &str, size: u64, modified: Option<i128>) -> ZipMember {
    ZipMember { name: name.to_string(), is_dir: false, size, modified }
}

fn dir_member(name: &str) -> ZipMember {
    ZipMember { name: name.to_string(), is_dir: true, size: 0, modified: None }
}

fn listing(z: &ZipDirEnum, path: &str) -> Vec<(String, FileEntryKind, Option<u64>, Option<i128>)> {
    match z.read_dir(path) {
        Ok(v) => v.into_iter().map(|e: FileEntry| (e.name, e.kind, e.size, e.modified)).collect(),
        Err(e) => panic!("read_dir({path}) failed: {e:?}"),
    }
}

fn names(z: &ZipDirEnum, path: &str) -> Vec<String> {
    listing(z, path).into_iter().map(|e| e.0).collect()
}

#[test]
fn zip_tree_lists_directories_and_files() {
    let members = vec![
        member("a/b.txt", 3, None),
        dir_member("a/c/"),
        member("d.txt", 5, Some(100)),
        member("a/c/e.bin", 7, Some(-4)),
    ];
    let z = ZipDirEnum::new(&members);
    assert_eq!(
        listing(&z, "/"),
        vec![
            ("a".to_string(), FileEntryKind::Directory, None, None),
            ("d.txt".to_string(), FileEntryKind::File, Some(5), Some(100)),
        ]
    );
    assert_eq!(
        listing(&z, "a"),
        vec![
            ("b.txt".to_string(), FileEntryKind::File, Some(3), None),
            ("c".to_string(), FileEntryKind::Directory, None, None),
        ]
    );
    assert_eq!(names(&z, "/a/c"), vec!["e.bin".to_string()]);
    assert_eq!(names(&z, "./a/c/"), vec!["e.bin".to_string()]);
    let hidden = z.read_dir("a").unwrap();
    assert!(hidden.iter().all(|e| !e.hidden));
}

#[test]
fn zip_tree_errors() {
    let z = ZipDirEnum::new(&vec![member("a/b.txt", 3, None)]);
    assert!(matches!(z.read_dir("a/b.txt"), Err(ZipReadError::NotADirectory)));
    assert!(matches!(z.read_dir("x"), Err(ZipReadError::NotFound)));
    assert!(matches!(z.read_dir("a/b.txt/c"), Err(ZipReadError::NotFound)));
}

#[test]
fn zip_tree_directory_members_are_skipped() {
    let z = ZipDirEnum::new(&vec![dir_member("empty/")]);
    assert!(names(&z, "/").is_empty());
    assert!(matches!(z.read_dir("empty"), Err(ZipReadError::NotFound)));
}

#[test]
fn zip_tree_empty_archive_has_empty_root() {
    let z = ZipDirEnum::new(&vec![]);
    assert!(names(&z, "/").is_empty());
    assert!(names(&z, "").is_empty());
    assert!(z.roots().is_empty());
}

#[test]
fn zip_tree_file_becomes_directory() {
    let z = ZipDirEnum::new(&vec![member("f", 1, None), member("f/g", 2, None)]);
    assert_eq!(listing(&z, "/"), vec![("f".to_string(), FileEntryKind::Directory, None, None)]);
    assert_eq!(names(&z, "f"), vec!["g".to_string()]);
}

#[test]
fn zip_tree_file_replaces_directory() {
    let z = ZipDirEnum::new(&vec![member("p/q", 2, None), member("p", 9, Some(1))]);
    assert_eq!(listing(&z, "/"), vec![("p".to_string(), FileEntryKind::File, Some(9), Some(1))]);
    assert!(matches!(z.read_dir("p"), Err(ZipReadError::NotADirectory)));
}

#[test]
fn zip_tree_later_member_wins() {
    let z = ZipDirEnum::new(&vec![member("x", 1, None), member("x", 2, Some(3))]);
    assert_eq!(listing(&z, "/"), vec![("x".to_string(), FileEntryKind::File, Some(2), Some(3))]);
}

#[test]
fn zip_tree_sorts_by_code_point() {
    let z = ZipDirEnum::new(&vec![member("b", 1, None), member("a", 1, None), member("C", 1, None), member("é", 1, None)]);
    assert_eq!(names(&z, "/"), vec!["C".to_string(), "a".to_string(), "b".to_string(), "é".to_string()]);
}

#[test]
fn zip_tree_absolute() {
    let z = ZipDirEnum::new(&vec![]);
    assert_eq!(z.absolute("x/y"), "/x/y");
    assert_eq!(z.absolute("/z"), "/z");
}

#[test]
fn zip_tree_path_components() {
    let z = ZipDirEnum::new(&vec![member("a//b/c", 1, None)]);
    assert_eq!(names(&z, "a/b/"), vec!["c".to_string()]);
    assert_eq!(names(&z, "/a//b"), vec!["c".to_string()]);
}

#[test]
fn drive_roots_from_mask() {
    let r = FileSystemDirEnum::drive_roots(0b101);
    let names: Vec<String> = r.iter().map(|e| e.name.clone()).collect();
    assert_eq!(names, vec!["A:\\".to_string(), "C:\\".to_string()]);
    assert!(r.iter().all(|e| e.kind == FileEntryKind::Root && e.size.is_none() && e.modified.is_none()));
    let z = FileSystemDirEnum::drive_roots(1 << 25);
    assert_eq!(z.len(), 1);
    assert_eq!(z[0].name, "Z:\\");
    assert!(FileSystemDirEnum::drive_roots(1 << 26).is_empty());
    assert!(FileSystemDirEnum::drive_roots(0).is_empty());
    assert_eq!(FileSystemDirEnum::drive_roots(u32::MAX).len(), 26);
}

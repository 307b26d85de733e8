//! Ways of enumerating directories: the plain filesystem, and the
//! filesystem where ZIP files are browsed as directories.
use vstd::prelude::*;
use vstd::string::*;
use crate::chooser::entry::{FileEntry, FileEntryKind, EntryView};
use crate::chooser::sort::views;
use crate::chooser::paths::{path_extension, extension_of};

verus! {

/// Sets the language for this widget.
///
/// The texts of the widget come in a single language, so this does nothing.
pub fn set_locale(_locale: &str) {
}

/// The default directory enumerator: regular entries in the filesystem.
#[derive(Clone, Copy, Debug, Default)]
pub struct FileSystemDirEnum;

/// The letters of the drives, in order.
pub open spec fn drive_letters() -> Seq<char> {
    seq![
        'A', 'B', 'C', 'D', 'E', 'F', 'G', 'H', 'I', 'J', 'K', 'L', 'M',
        'N', 'O', 'P', 'Q', 'R', 'S', 'T', 'U', 'V', 'W', 'X', 'Y', 'Z',
    ]
}

/// The root entry of the drive of letter number `i`, such as `C:\`.
pub open spec fn drive_root(i: int) -> EntryView {
    EntryView {
        name: seq![drive_letters()[i], ':', '\\'],
        kind: FileEntryKind::Root,
        size: None,
        modified: None,
        hidden: false,
    }
}

/// The roots of the drives among the first `n` that the mask `drives`
/// holds (bit `i` for the letter number `i`), in order of letter.
pub open spec fn drive_roots_upto(drives: u32, n: int) -> Seq<EntryView>
    decreases n,
{
    if n <= 0 {
        Seq::empty()
    } else {
        let r = drive_roots_upto(drives, n - 1);
        if drives & (1u32 << ((n - 1) as u32)) != 0 {
            r.push(drive_root(n - 1))
        } else {
            r
        }
    }
}

impl FileSystemDirEnum {
    /// The roots of the filesystem for the mask of logical drives `drives`,
    /// as the system reports it: one entry of kind `Root` for each of the
    /// letters `A` to `Z` whose bit is set, in order.
    pub fn drive_roots(drives: u32) -> (r: Vec<FileEntry>)
        ensures
            views(r@) == drive_roots_upto(drives, 26),
    {
        let letters = "ABCDEFGHIJKLMNOPQRSTUVWXYZ";
        proof {
            reveal_strlit("ABCDEFGHIJKLMNOPQRSTUVWXYZ");
            assert(letters@ =~= drive_letters());
        }
        let mut r: Vec<FileEntry> = Vec::new();
        let mut letter: u32 = 0;
        while letter < 26
            invariant
                letter <= 26,
                letters@ == drive_letters(),
                views(r@) == drive_roots_upto(drives, letter as int),
            decreases 26 - letter,
        {
            let ghost before = r@;
            if drives & (1u32 << letter) != 0 {
                let mut name = String::from_str(letters.substring_char(letter as usize, letter as usize + 1));
                let tail = ":\\";
                proof {
                    reveal_strlit(":\\");
                }
                name.append(tail);
                assert(name@ =~= seq![drive_letters()[letter as int], ':', '\\']);
                r.push(FileEntry { name, kind: FileEntryKind::Root, size: None, modified: None, hidden: false });
                assert(views(r@) =~= views(before).push(drive_root(letter as int)));
            }
            letter = letter + 1;
        }
        r
    }
}

/// A preview builder that shows nothing.
#[derive(Clone, Copy, Debug, Default)]
pub struct NoPreview;

/// What a path designates when ZIP files are browsed as directories.
#[derive(Debug, PartialEq, Eq)]
pub enum ZipAnalyzeResult {
    /// A normal entry in the filesystem, or maybe a missing or invalid one.
    Regular(String),
    /// An entry inside a ZIP file. The ZIP file or the entry may not exist.
    Zip { zip_name: String, inner: String },
}

/// The mathematical value of a [`ZipAnalyzeResult`].
pub enum ZipAnalyzeView {
    Regular(Seq<char>),
    Zip { zip_name: Seq<char>, inner: Seq<char> },
}

impl View for ZipAnalyzeResult {
    type V = ZipAnalyzeView;

    open spec fn view(&self) -> ZipAnalyzeView {
        match self {
            ZipAnalyzeResult::Regular(p) => ZipAnalyzeView::Regular(p@),
            ZipAnalyzeResult::Zip { zip_name, inner } => ZipAnalyzeView::Zip {
                zip_name: zip_name@,
                inner: inner@,
            },
        }
    }
}

/// What the filesystem holds at a path.
#[derive(Clone, Copy, PartialEq, Eq, Structural, Debug)]
pub enum PathKind {
    /// Nothing.
    Missing,
    /// A regular file.
    File,
    /// A directory.
    Directory,
    /// Something else.
    Other,
}

/// The text `zip`.
pub open spec fn zip_ext() -> Seq<char> {
    seq!['z', 'i', 'p']
}

/// Whether a path names a ZIP file by its extension.
pub open spec fn has_zip_extension(p: Seq<char>) -> bool {
    path_extension(p) == Some(zip_ext())
}

fn is_zip_name(p: &str) -> (r: bool)
    ensures
        r == has_zip_extension(p@),
{
    proof {
        reveal_strlit("zip");
    }
    match extension_of(p) {
        Some(e) => {
            let c = crate::text::chars_of(e.as_str());
            let r = c.len() == 3 && c[0] == 'z' && c[1] == 'i' && c[2] == 'p';
            assert(r == (c@ =~= zip_ext()));
            r
        },
        None => false,
    }
}

/// What the path itself tells, before looking at its ancestors: a path that
/// exists and is not a ZIP file (by kind and extension) is regular.
pub open spec fn spec_analyze_existing(path: Seq<char>, kind: PathKind) -> Option<ZipAnalyzeView> {
    if kind != PathKind::Missing && (kind != PathKind::File || !has_zip_extension(path)) {
        Some(ZipAnalyzeView::Regular(path))
    } else {
        None
    }
}

/// Decides what `path` is from what the filesystem holds at it, if that is
/// enough.
pub fn analyze_existing(path: &str, kind: PathKind) -> (r: Option<ZipAnalyzeResult>)
    ensures
        match spec_analyze_existing(path@, kind) {
            Some(v) => r matches Some(x) && x@ == v,
            None => r is None,
        },
{
    if kind != PathKind::Missing && (kind != PathKind::File || !is_zip_name(path)) {
        Some(ZipAnalyzeResult::Regular(path.to_owned()))
    } else {
        None
    }
}

/// What an ancestor of the path tells.
pub enum AncestorStep {
    /// The answer.
    Done(ZipAnalyzeResult),
    /// Look at the next ancestor.
    Up,
}

/// What `Path::strip_prefix` gives for the path texts `p` and `base`.
pub uninterp spec fn path_strip_prefix(p: Seq<char>, base: Seq<char>) -> Option<Seq<char>>;

/// Calls `std::path::Path::strip_prefix` on `p` and `base`.
///
/// Trusted: the result is only named (`path_strip_prefix`), as a function of
/// both texts.
#[verifier::external_body]
fn strip_prefix(p: &str, base: &str) -> (r: Option<String>)
    ensures
        match r {
            Some(s) => path_strip_prefix(p@, base@) == Some(s@),
            None => path_strip_prefix(p@, base@) is None,
        },
{
    match std::path::Path::new(p).strip_prefix(base) {
        Ok(q) => Some(q.to_string_lossy().into_owned()),
        Err(_) => None,
    }
}

/// Decides from an ancestor of `path`: a directory means the path is
/// regular; a file means the path is inside that (ZIP) file; anything else
/// means looking further up.
pub fn analyze_ancestor(path: &str, ancestor: &str, kind: PathKind) -> (r: AncestorStep)
    ensures
        kind == PathKind::Directory ==> (r matches AncestorStep::Done(x) && x@ == ZipAnalyzeView::Regular(path@)),
        kind == PathKind::File ==> (r matches AncestorStep::Done(x) && x@ == match path_strip_prefix(path@, ancestor@) {
            Some(inner) => ZipAnalyzeView::Zip { zip_name: ancestor@, inner },
            None => ZipAnalyzeView::Regular(path@),
        }),
        kind != PathKind::Directory && kind != PathKind::File ==> r is Up,
{
    match kind {
        PathKind::Directory => AncestorStep::Done(ZipAnalyzeResult::Regular(path.to_owned())),
        PathKind::File => match strip_prefix(path, ancestor) {
            Some(inner) => AncestorStep::Done(ZipAnalyzeResult::Zip { zip_name: ancestor.to_owned(), inner }),
            None => AncestorStep::Done(ZipAnalyzeResult::Regular(path.to_owned())),
        },
        _ => AncestorStep::Up,
    }
}

/// The entry as listed when ZIP files are browsed as directories: a file
/// named with the `zip` extension is listed as a directory.
pub open spec fn zip_as_dir(e: EntryView) -> EntryView {
    if e.kind == FileEntryKind::File && has_zip_extension(e.name) {
        EntryView { kind: FileEntryKind::Directory, ..e }
    } else {
        e
    }
}

/// Lists ZIP files as directories.
pub fn mark_zip_dirs(entries: Vec<FileEntry>) -> (r: Vec<FileEntry>)
    ensures
        views(r@) == views(entries@).map_values(|e: EntryView| zip_as_dir(e)),
{
    let ghost orig = views(entries@);
    let mut entries = entries;
    let n = entries.len();
    let mut i: usize = 0;
    while i < n
        invariant
            n == entries.len(),
            orig.len() == n,
            i <= n,
            forall|k: int| 0 <= k < i ==> #[trigger] views(entries@)[k] == zip_as_dir(orig[k]),
            forall|k: int| i <= k < n ==> #[trigger] views(entries@)[k] == orig[k],
        decreases n - i,
    {
        assert(views(entries@)[i as int] == entries@[i as int]@);
        if entries[i].kind == FileEntryKind::File && is_zip_name(entries[i].name.as_str()) {
            let ghost before = entries@;
            let mut e = entries.remove(i);
            e.kind = FileEntryKind::Directory;
            let ghost ev = e@;
            entries.insert(i, e);
            assert(views(entries@) =~= views(before).update(i as int, ev));
        }
        i = i + 1;
    }
    assert(views(entries@) =~= orig.map_values(|e: EntryView| zip_as_dir(e)));
    entries
}

} // verus!

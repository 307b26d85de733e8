//! Operations on path texts, done by `std::path`.
use vstd::prelude::*;
use std::path::{Component, Prefix};

verus! {

/// What `Path::parent` gives for the path text `p`.
pub uninterp spec fn path_parent(p: Seq<char>) -> Option<Seq<char>>;

/// What `Path::join` gives for the path texts `base` and `rel`.
pub uninterp spec fn path_join(base: Seq<char>, rel: Seq<char>) -> Seq<char>;

/// What `Path::extension` gives for the path text `p`.
pub uninterp spec fn path_extension(p: Seq<char>) -> Option<Seq<char>>;

/// What `Path::file_stem` gives for the path text `p`.
pub uninterp spec fn path_file_stem(p: Seq<char>) -> Option<Seq<char>>;

/// What `PathBuf::set_extension` leaves in the path text `p` for `ext`.
pub uninterp spec fn path_with_extension(p: Seq<char>, ext: Seq<char>) -> Seq<char>;

/// Calls `std::path::Path::parent` on `p`.
///
/// Trusted: the result is only named (`path_parent`), as a function of `p`.
#[verifier::external_body]
pub(crate) fn parent_of(p: &str) -> (r: Option<String>)
    ensures
        match r {
            Some(s) => path_parent(p@) == Some(s@),
            None => path_parent(p@) is None,
        },
{
    match std::path::Path::new(p).parent() {
        Some(q) => Some(q.to_string_lossy().into_owned()),
        None => None,
    }
}

/// Calls `std::path::Path::join` on `base` and `rel`.
///
/// Trusted: the result is only named (`path_join`), as a function of both
/// texts.
#[verifier::external_body]
pub(crate) fn join(base: &str, rel: &str) -> (r: String)
    ensures
        r@ == path_join(base@, rel@),
{
    std::path::Path::new(base).join(rel).to_string_lossy().into_owned()
}

/// Calls `std::path::Path::extension` on `p`.
///
/// Trusted: the result is only named (`path_extension`), as a function of
/// `p`.
#[verifier::external_body]
pub(crate) fn extension_of(p: &str) -> (r: Option<String>)
    ensures
        match r {
            Some(s) => path_extension(p@) == Some(s@),
            None => path_extension(p@) is None,
        },
{
    match std::path::Path::new(p).extension() {
        Some(e) => Some(e.to_string_lossy().into_owned()),
        None => None,
    }
}

/// Calls `std::path::Path::file_stem` on `p`.
///
/// Trusted: the result is only named (`path_file_stem`), as a function of
/// `p`.
#[verifier::external_body]
pub(crate) fn file_stem_of(p: &str) -> (r: Option<String>)
    ensures
        match r {
            Some(s) => path_file_stem(p@) == Some(s@),
            None => path_file_stem(p@) is None,
        },
{
    match std::path::Path::new(p).file_stem() {
        Some(e) => Some(e.to_string_lossy().into_owned()),
        None => None,
    }
}

/// What `std::path::is_separator` gives for the character `c`: whether it
/// separates the components of a path on this platform.
pub uninterp spec fn path_separator(c: char) -> bool;

/// Calls `std::path::is_separator` on `c`.
///
/// Trusted: the result is only named (`path_separator`), as a function of
/// `c`.
#[verifier::external_body]
pub(crate) fn is_separator(c: char) -> (r: bool)
    ensures
        r == path_separator(c),
{
    std::path::is_separator(c)
}

/// The text `s` holds no path separator.
pub open spec fn no_separator(s: Seq<char>) -> bool {
    forall|i: int| 0 <= i < s.len() ==> !path_separator(#[trigger] s[i])
}

/// Calls `std::path::PathBuf::set_extension` on a copy of `p`, which panics
/// when the extension holds a path separator.
///
/// Trusted: the result is only named (`path_with_extension`), as a function
/// of both texts.
#[verifier::external_body]
pub(crate) fn with_extension(p: &str, ext: &str) -> (r: String)
    requires
        no_separator(ext@),
    ensures
        r@ == path_with_extension(p@, ext@),
{
    let mut b = std::path::PathBuf::from(p);
    b.set_extension(ext);
    b.to_string_lossy().into_owned()
}

/// What `Path::eq` gives for the path texts `a` and `b`.
pub uninterp spec fn paths_equal(a: Seq<char>, b: Seq<char>) -> bool;

/// Compares the path texts `a` and `b` with `std::path::Path::eq`.
///
/// Trusted: the result is only named (`paths_equal`), as a function of both
/// texts.
#[verifier::external_body]
pub(crate) fn same_path(a: &str, b: &str) -> (r: bool)
    ensures
        r == paths_equal(a@, b@),
{
    std::path::Path::new(a) == std::path::Path::new(b)
}

/// The components of a path, each as a character sequence.
pub open spec fn pieces_view(v: Seq<String>) -> Seq<Seq<char>> {
    v.map_values(|s: String| s@)
}

/// What iterating over `Path::iter` gives for the path text `p`: its
/// components, each as a text.
pub uninterp spec fn path_components(p: Seq<char>) -> Seq<Seq<char>>;

/// Splits the path text `p` into its components with
/// `std::path::Path::iter`.
///
/// Trusted: the result is only named (`path_components`), as a function of
/// `p`. A component of a `&str` path is valid UTF-8, so the conversion to
/// `String` loses nothing.
#[verifier::external_body]
pub(crate) fn path_pieces(p: &str) -> (r: Vec<String>)
    ensures
        pieces_view(r@) == path_components(p@),
{
    std::path::Path::new(p).iter().map(|c| c.to_string_lossy().into_owned()).collect()
}

/// What `Path::is_relative` gives for the path text `p`.
pub uninterp spec fn path_is_relative(p: Seq<char>) -> bool;

/// Calls `std::path::Path::is_relative` on `p`.
///
/// Trusted: the result is only named (`path_is_relative`), as a function
/// of `p`.
#[verifier::external_body]
pub(crate) fn is_relative(p: &str) -> (r: bool)
    ensures
        r == path_is_relative(p@),
{
    std::path::Path::new(p).is_relative()
}

/// The kind of a prefix of a path, as `std::path::Prefix` tells it apart
/// (texts as strings, drive letters as bytes).
#[derive(Debug, PartialEq, Eq)]
pub enum PrefixKind {
    Verbatim(String),
    VerbatimUNC(String, String),
    VerbatimDisk(u8),
    DeviceNS(String),
    UNC(String, String),
    Disk(u8),
}

/// A component of a path, as `std::path::Component` tells it apart, each
/// with its text.
#[derive(Debug, PartialEq, Eq)]
pub enum PathPiece {
    Prefix(String),
    RootDir(String),
    CurDir(String),
    ParentDir(String),
    Normal(String),
}

/// The mathematical value of a [`PrefixKind`].
pub enum PrefixKindView {
    Verbatim(Seq<char>),
    VerbatimUNC(Seq<char>, Seq<char>),
    VerbatimDisk(u8),
    DeviceNS(Seq<char>),
    UNC(Seq<char>, Seq<char>),
    Disk(u8),
}

/// The mathematical value of a [`PathPiece`].
pub enum PathPieceView {
    Prefix(Seq<char>),
    RootDir(Seq<char>),
    CurDir(Seq<char>),
    ParentDir(Seq<char>),
    Normal(Seq<char>),
}

impl View for PrefixKind {
    type V = PrefixKindView;

    open spec fn view(&self) -> PrefixKindView {
        match self {
            PrefixKind::Verbatim(a) => PrefixKindView::Verbatim(a@),
            PrefixKind::VerbatimUNC(a, b) => PrefixKindView::VerbatimUNC(a@, b@),
            PrefixKind::VerbatimDisk(d) => PrefixKindView::VerbatimDisk(*d),
            PrefixKind::DeviceNS(a) => PrefixKindView::DeviceNS(a@),
            PrefixKind::UNC(a, b) => PrefixKindView::UNC(a@, b@),
            PrefixKind::Disk(d) => PrefixKindView::Disk(*d),
        }
    }
}

impl View for PathPiece {
    type V = PathPieceView;

    open spec fn view(&self) -> PathPieceView {
        match self {
            PathPiece::Prefix(s) => PathPieceView::Prefix(s@),
            PathPiece::RootDir(s) => PathPieceView::RootDir(s@),
            PathPiece::CurDir(s) => PathPieceView::CurDir(s@),
            PathPiece::ParentDir(s) => PathPieceView::ParentDir(s@),
            PathPiece::Normal(s) => PathPieceView::Normal(s@),
        }
    }
}

/// The values of a list of components.
pub open spec fn piece_kind_views(v: Seq<PathPiece>) -> Seq<PathPieceView> {
    v.map_values(|c: PathPiece| c@)
}

/// What `Path::components` gives for the path text `p`.
pub uninterp spec fn path_piece_kinds(p: Seq<char>) -> Seq<PathPieceView>;

/// Splits the path text `p` with `std::path::Path::components`, converting
/// each component to the variant of the same name, with its text.
///
/// Trusted: the result is only named (`path_piece_kinds`), as a function of
/// `p`.
#[verifier::external_body]
pub(crate) fn path_piece_list(p: &str) -> (r: Vec<PathPiece>)
    ensures
        piece_kind_views(r@) == path_piece_kinds(p@),
{
    let mut r = Vec::new();
    for c in std::path::Path::new(p).components() {
        let text = c.as_os_str().to_string_lossy().into_owned();
        r.push(match c {
            Component::Prefix(_) => PathPiece::Prefix(text),
            Component::RootDir => PathPiece::RootDir(text),
            Component::CurDir => PathPiece::CurDir(text),
            Component::ParentDir => PathPiece::ParentDir(text),
            Component::Normal(_) => PathPiece::Normal(text),
        });
    }
    r
}

/// What `PrefixComponent::kind` gives for the prefix that begins the path
/// text `p`, if it begins with one.
pub uninterp spec fn prefix_kind(p: Seq<char>) -> Option<PrefixKindView>;

/// Reads the kind of the prefix that begins the path text `p` (as the first
/// of its `std::path::Path::components`) with `PrefixComponent::kind`,
/// converting each kind to the variant of the same name.
///
/// Trusted: the result is only named (`prefix_kind`), as a function of `p`.
#[verifier::external_body]
pub(crate) fn prefix_kind_of(p: &str) -> (r: Option<PrefixKind>)
    ensures
        match r {
            Some(k) => prefix_kind(p@) == Some(k@),
            None => prefix_kind(p@) is None,
        },
{
    let Some(Component::Prefix(pc)) = std::path::Path::new(p).components().next() else {
        return None;
    };
    Some(match pc.kind() {
        Prefix::Verbatim(a) => PrefixKind::Verbatim(a.to_string_lossy().into_owned()),
        Prefix::VerbatimUNC(a, b) => PrefixKind::VerbatimUNC(a.to_string_lossy().into_owned(), b.to_string_lossy().into_owned()),
        Prefix::VerbatimDisk(d) => PrefixKind::VerbatimDisk(d),
        Prefix::DeviceNS(a) => PrefixKind::DeviceNS(a.to_string_lossy().into_owned()),
        Prefix::UNC(a, b) => PrefixKind::UNC(a.to_string_lossy().into_owned(), b.to_string_lossy().into_owned()),
        Prefix::Disk(d) => PrefixKind::Disk(d),
    })
}

/// Calls `ToString::to_string` on the character `c`.
///
/// Trusted: the result is the text of that one character.
#[verifier::external_body]
pub(crate) fn char_text(c: char) -> (r: String)
    ensures
        r@ == seq![c],
{
    c.to_string()
}

} // verus!

//! The state of a file chooser and the operations on it.
use vstd::prelude::*;
use vstd::string::*;
use crate::text::{chars_of, contains_chars, seq_contains, lowercase, to_lowercase};
use crate::chooser::entry::{FileEntry, FileEntryKind, EntryView, SortSpec};
use crate::chooser::sort::{views, is_stable_sort, stable_sort_entries};
use crate::chooser::filter::{Filter, FilterId, FilterView, filter_accepts};
use crate::chooser::paths::{
    path_parent, path_join, path_extension, path_file_stem, path_with_extension, parent_of,
    join, extension_of, file_stem_of, with_extension, paths_equal, same_path, path_separator,
    no_separator, is_separator,
};
use crate::chooser::entry::SortDirection;

verus! {

/// Flags that modify the default behavior of the chooser.
#[derive(Clone, Copy, PartialEq, Eq, Structural, Debug)]
pub struct Flags {
    pub bits: u32,
}

impl Flags {
    /// Shows the "Read only" check.
    pub fn show_read_only() -> (r: Flags)
        ensures
            r.bits == 1,
    {
        Flags { bits: 1 }
    }

    /// Doesn't allow to select a non-existing file.
    pub fn must_exist() -> (r: Flags)
        ensures
            r.bits == 2,
    {
        Flags { bits: 2 }
    }

    /// No flag.
    pub fn empty() -> (r: Flags)
        ensures
            r.bits == 0,
    {
        Flags { bits: 0 }
    }

    /// Whether every flag of `other` is set in `self`.
    pub open spec fn spec_contains(self, other: Flags) -> bool {
        self.bits & other.bits == other.bits
    }

    /// Whether every flag of `other` is set in `self`.
    pub fn contains(&self, other: Flags) -> (r: bool)
        ensures
            r == self.spec_contains(other),
    {
        self.bits & other.bits == other.bits
    }
}


/// What the typed name designates, for the "OK" action.
#[derive(Clone, Copy, PartialEq, Eq, Structural, Debug)]
pub enum ApplicablePathRes {
    /// A directory: "OK" navigates into it.
    Directory,
    /// A file listed in the directory.
    ExistingFile,
    /// A name that is not listed: a new file.
    NewEntry,
    /// Nothing that can be accepted.
    Forbidden,
}

/// What the widget wants after a frame.
#[derive(Clone, Copy, PartialEq, Eq, Structural, Debug)]
pub enum Output {
    /// The widget is still opened.
    Continue,
    /// The widget wants to be closed, or failed scanning the directory.
    Cancel,
    /// The widget wants to accept a file.
    Accept,
}

/// The effect of activating an entry or pressing "OK".
#[derive(PartialEq, Eq, Debug)]
pub enum Activation {
    /// Nothing happens.
    Stay,
    /// The chooser moves to the given directory.
    Navigate(String),
    /// The current name is accepted.
    Accept,
}

/// The mathematical value of an [`Activation`].
pub enum ActivationView {
    Stay,
    Navigate(Seq<char>),
    Accept,
}

impl View for Activation {
    type V = ActivationView;

    open spec fn view(&self) -> ActivationView {
        match self {
            Activation::Stay => ActivationView::Stay,
            Activation::Navigate(p) => ActivationView::Navigate(p@),
            Activation::Accept => ActivationView::Accept,
        }
    }
}

/// The state of the file chooser widget.
///
/// Create one of these when the widget is opened; the interface drives it
/// with the operations below, once per frame.
pub struct FileChooser {
    path: String,
    flags: Flags,
    entries: Vec<FileEntry>,
    selected: Option<usize>,
    sort_dirty: bool,
    visible_dirty: bool,
    scroll_dirty: bool,
    show_hidden: bool,
    popup_dirs: Vec<(String, bool)>,
    search_term: String,
    file_name: String,
    active_filter_idx: usize,
    filters: Vec<Filter>,
    read_only: bool,
    visible_entries: Vec<usize>,
}

/// The mathematical value of a [`FileChooser`].
pub struct ChooserView {
    pub path: Seq<char>,
    pub flags: Flags,
    pub entries: Seq<EntryView>,
    pub selected: Option<usize>,
    pub sort_dirty: bool,
    pub visible_dirty: bool,
    pub scroll_dirty: bool,
    pub show_hidden: bool,
    pub popup_dirs: Seq<(Seq<char>, bool)>,
    pub search_term: Seq<char>,
    pub file_name: Seq<char>,
    pub active_filter_idx: usize,
    pub filters: Seq<FilterView>,
    pub read_only: bool,
    pub visible_entries: Seq<usize>,
}

/// The values of a list of directory pairs.
pub open spec fn dir_pair_views(s: Seq<(String, bool)>) -> Seq<(Seq<char>, bool)> {
    s.map_values(|d: (String, bool)| (d.0@, d.1))
}

/// The values of a list of filters.
pub open spec fn filter_views(s: Seq<Filter>) -> Seq<FilterView> {
    s.map_values(|f: Filter| f@)
}

impl View for FileChooser {
    type V = ChooserView;

    closed spec fn view(&self) -> ChooserView {
        ChooserView {
            path: self.path@,
            flags: self.flags,
            entries: views(self.entries@),
            selected: self.selected,
            sort_dirty: self.sort_dirty,
            visible_dirty: self.visible_dirty,
            scroll_dirty: self.scroll_dirty,
            show_hidden: self.show_hidden,
            popup_dirs: dir_pair_views(self.popup_dirs@),
            search_term: self.search_term@,
            file_name: self.file_name@,
            active_filter_idx: self.active_filter_idx,
            filters: filter_views(self.filters@),
            read_only: self.read_only,
            visible_entries: self.visible_entries@,
        }
    }
}

/// The value of the `..` entry.
pub open spec fn dot_dot_view() -> EntryView {
    EntryView {
        name: seq!['.', '.'],
        kind: FileEntryKind::Parent,
        size: None,
        modified: None,
        hidden: false,
    }
}

/// The position of the last entry named `name`.
pub open spec fn last_named(entries: Seq<EntryView>, name: Seq<char>) -> Option<usize>
    decreases entries.len(),
{
    if entries.len() == 0 {
        None
    } else if entries.last().name == name {
        Some((entries.len() - 1) as usize)
    } else {
        last_named(entries.drop_last(), name)
    }
}

/// The position of the first entry named `name`.
pub open spec fn first_named(entries: Seq<EntryView>, name: Seq<char>) -> Option<usize>
    decreases entries.len(),
{
    if entries.len() == 0 {
        None
    } else {
        match first_named(entries.drop_last(), name) {
            Some(i) => Some(i),
            None => if entries.last().name == name {
                Some((entries.len() - 1) as usize)
            } else {
                None
            },
        }
    }
}

/// The position of the first filter that accepts `name`.
pub open spec fn first_accepting(filters: Seq<FilterView>, name: Seq<char>) -> Option<usize>
    decreases filters.len(),
{
    if filters.len() == 0 {
        None
    } else {
        match first_accepting(filters.drop_last(), name) {
            Some(i) => Some(i),
            None => if filter_accepts(filters.last(), name) {
                Some((filters.len() - 1) as usize)
            } else {
                None
            },
        }
    }
}

/// The position of the first filter with identifier `id`.
pub open spec fn first_with_id(filters: Seq<FilterView>, id: FilterId) -> Option<usize>
    decreases filters.len(),
{
    if filters.len() == 0 {
        None
    } else {
        match first_with_id(filters.drop_last(), id) {
            Some(i) => Some(i),
            None => if filters.last().id == id {
                Some((filters.len() - 1) as usize)
            } else {
                None
            },
        }
    }
}

/// The entries of a directory listing: `..` first when the directory has a
/// non-empty parent, then the listing.
pub open spec fn listing_entries(path: Seq<char>, listing: Seq<EntryView>) -> Seq<EntryView> {
    match path_parent(path) {
        Some(t) => if t.len() > 0 {
            seq![dot_dot_view()] + listing
        } else {
            listing
        },
        None => listing,
    }
}

impl ChooserView {
    /// The state is consistent: the selection is an entry, and the active
    /// filter is a filter (or the first one, while there is none).
    pub open spec fn wf(self) -> bool {
        &&& (self.selected matches Some(i) ==> i < self.entries.len())
        &&& (self.active_filter_idx < self.filters.len() || (self.filters.len() == 0
            && self.active_filter_idx == 0))
    }

    /// Every visible index designates an entry.
    pub open spec fn visible_in_range(self) -> bool {
        forall|k: int|
            0 <= k < self.visible_entries.len() ==> #[trigger] self.visible_entries[k]
                < self.entries.len()
    }
}

proof fn lemma_first_named_step(entries: Seq<EntryView>, name: Seq<char>, i: int)
    requires
        0 <= i < entries.len(),
    ensures
        first_named(entries.take(i + 1), name) == (match first_named(entries.take(i), name) {
            Some(k) => Some(k),
            None => if entries[i].name == name {
                Some(i as usize)
            } else {
                None
            },
        }),
{
    assert(entries.take(i + 1).drop_last() =~= entries.take(i));
}

proof fn lemma_first_accepting_step(filters: Seq<FilterView>, name: Seq<char>, i: int)
    requires
        0 <= i < filters.len(),
    ensures
        first_accepting(filters.take(i + 1), name) == (match first_accepting(filters.take(i), name) {
            Some(k) => Some(k),
            None => if filter_accepts(filters[i], name) {
                Some(i as usize)
            } else {
                None
            },
        }),
{
    assert(filters.take(i + 1).drop_last() =~= filters.take(i));
}

proof fn lemma_first_with_id_step(filters: Seq<FilterView>, id: FilterId, i: int)
    requires
        0 <= i < filters.len(),
    ensures
        first_with_id(filters.take(i + 1), id) == (match first_with_id(filters.take(i), id) {
            Some(k) => Some(k),
            None => if filters[i].id == id {
                Some(i as usize)
            } else {
                None
            },
        }),
{
    assert(filters.take(i + 1).drop_last() =~= filters.take(i));
}

fn str_eq(a: &str, b: &str) -> (r: bool)
    ensures
        r == (a@ == b@),
{
    let x = chars_of(a);
    let y = chars_of(b);
    if x.len() != y.len() {
        return false;
    }
    let mut i: usize = 0;
    while i < x.len()
        invariant
            x@ == a@,
            y@ == b@,
            x.len() == y.len(),
            i <= x.len(),
            forall|k: int| 0 <= k < i ==> x@[k] == y@[k],
        decreases x.len() - i,
    {
        if x[i] != y[i] {
            return false;
        }
        i = i + 1;
    }
    assert(x@ =~= y@);
    true
}

fn first_named_in(entries: &Vec<FileEntry>, name: &str) -> (r: Option<usize>)
    ensures
        r == first_named(views(entries@), name@),
{
    let ghost v = views(entries@);
    let mut i: usize = 0;
    assert(v.take(0) =~= Seq::<EntryView>::empty());
    while i < entries.len()
        invariant
            v == views(entries@),
            i <= entries.len(),
            first_named(v.take(i as int), name@) is None,
        decreases entries.len() - i,
    {
        proof {
            lemma_first_named_step(v, name@, i as int);
        }
        assert(v[i as int].name == entries@[i as int].name@);
        if str_eq(entries[i].name.as_str(), name) {
            assert(v.take(i + 1) =~= v.take(i + 1));
            proof {
                assert(first_named(v, name@) == first_named(v.take(i + 1), name@)) by {
                    lemma_first_named_prefix(v, name@, i + 1);
                }
            }
            return Some(i);
        }
        i = i + 1;
    }
    assert(v.take(i as int) =~= v);
    None
}

proof fn lemma_first_named_prefix(entries: Seq<EntryView>, name: Seq<char>, n: int)
    requires
        0 <= n <= entries.len(),
        first_named(entries.take(n), name) is Some,
    ensures
        first_named(entries, name) == first_named(entries.take(n), name),
    decreases entries.len() - n,
{
    if n < entries.len() {
        lemma_first_named_step(entries, name, n);
        lemma_first_named_prefix(entries, name, n + 1);
    } else {
        assert(entries.take(n) =~= entries);
    }
}

impl FileChooser {
    /// The selection is an entry, and the active filter is a filter.
    #[verifier::type_invariant]
    closed spec fn inv(self) -> bool {
        self@.wf()
    }

    /// Creates a chooser with default options: no directory read yet, no
    /// filters, no flags.
    pub fn new() -> (r: FileChooser)
        ensures
            r@.wf(),
            r@.path == Seq::<char>::empty(),
            r@.flags.bits == 0,
            r@.entries.len() == 0,
            r@.selected is None,
            !r@.sort_dirty && !r@.visible_dirty && !r@.scroll_dirty && !r@.show_hidden,
            r@.popup_dirs.len() == 0,
            r@.search_term.len() == 0,
            r@.file_name.len() == 0,
            r@.active_filter_idx == 0,
            r@.filters.len() == 0,
            !r@.read_only,
            r@.visible_entries.len() == 0,
    {
        let r = FileChooser {
            path: String::new(),
            flags: Flags::empty(),
            entries: Vec::new(),
            selected: None,
            sort_dirty: false,
            visible_dirty: false,
            scroll_dirty: false,
            show_hidden: false,
            popup_dirs: Vec::new(),
            search_term: String::new(),
            file_name: String::new(),
            active_filter_idx: 0,
            filters: Vec::new(),
            read_only: false,
            visible_entries: Vec::new(),
        };
        assert(views(r.entries@) =~= Seq::<EntryView>::empty());
        assert(filter_views(r.filters@) =~= Seq::<FilterView>::empty());
        assert(dir_pair_views(r.popup_dirs@) =~= Seq::<(Seq<char>, bool)>::empty());
        r
    }

    /// Adds the given option flags.
    pub fn add_flags(&mut self, flags: Flags)
        ensures
            old(self)@.wf(),
            final(self)@ == (ChooserView { flags: Flags { bits: old(self)@.flags.bits | flags.bits }, ..old(self)@ }),
    {
        proof {
            use_type_invariant(&*self);
        }
        self.flags = Flags { bits: self.flags.bits | flags.bits };
    }

    /// Removes the given option flags.
    pub fn remove_flags(&mut self, flags: Flags)
        ensures
            old(self)@.wf(),
            final(self)@ == (ChooserView { flags: Flags { bits: old(self)@.flags.bits & !flags.bits }, ..old(self)@ }),
    {
        proof {
            use_type_invariant(&*self);
        }
        self.flags = Flags { bits: self.flags.bits & !flags.bits };
    }

    /// Gets the current showing directory.
    pub fn path(&self) -> (r: &str)
        ensures
            self@.wf(),
            r@ == self@.path,
    {
        proof {
            use_type_invariant(&*self);
        }
        self.path.as_str()
    }

    /// Gets the selected entry, if any.
    pub fn selected_entry(&self) -> (r: Option<&FileEntry>)
        ensures
            self@.wf(),
            match self@.selected {
                Some(i) => r matches Some(e) && e@ == self@.entries[i as int],
                None => r is None,
            },
    {
        proof {
            use_type_invariant(&*self);
        }
        match self.selected {
            Some(i) => Some(&self.entries[i]),
            None => None,
        }
    }

    /// Gets the current file name.
    ///
    /// When the selected entry is a file with the typed name, that entry's
    /// name is given, which has the same text.
    pub fn file_name(&self) -> (r: &str)
        ensures
            self@.wf(),
            r@ == self@.file_name,
    {
        proof {
            use_type_invariant(&*self);
        }
        if let Some(entry) = self.selected_entry() {
            if entry.kind == FileEntryKind::File && str_eq(self.file_name.as_str(), entry.name.as_str()) {
                return entry.name.as_str();
            }
        }
        self.file_name.as_str()
    }

    /// Gets the status of the read-only check box.
    ///
    /// If the `SHOW_READ_ONLY` flag is not set, it is `false`.
    pub fn read_only(&self) -> (r: bool)
        ensures
            self@.wf(),
            r == (self@.flags.spec_contains(Flags { bits: 1 }) && self@.read_only),
    {
        proof {
            use_type_invariant(&*self);
        }
        self.flags.contains(Flags::show_read_only()) && self.read_only
    }

    /// The user set the read-only check box to `read_only`. The box is shown
    /// only with the `SHOW_READ_ONLY` flag; without it nothing changes.
    pub fn set_read_only(&mut self, read_only: bool)
        ensures
            old(self)@.wf(),
            final(self)@ == (ChooserView {
                read_only: if old(self)@.flags.spec_contains(Flags { bits: 1 }) {
                    read_only
                } else {
                    old(self)@.read_only
                },
                ..old(self)@
            }),
    {
        proof {
            use_type_invariant(&*self);
        }
        if self.flags.contains(Flags::show_read_only()) {
            self.read_only = read_only;
        }
    }

    /// Gets the current active filter, if any.
    ///
    /// It is `None` only if no filters have been added.
    pub fn active_filter(&self) -> (r: Option<FilterId>)
        ensures
            self@.wf(),
            r == (if self@.filters.len() == 0 {
                None
            } else {
                Some(self@.filters[self@.active_filter_idx as int].id)
            }),
    {
        proof {
            use_type_invariant(&*self);
        }
        if self.filters.len() == 0 {
            None
        } else {
            assert(filter_views(self.filters@)[self.active_filter_idx as int] == self.filters@[self.active_filter_idx as int]@);
            Some(self.filters[self.active_filter_idx].id)
        }
    }

    /// Sets the current active filter: the first filter with that
    /// identifier, if there is one.
    pub fn set_active_filter(&mut self, filter_id: FilterId)
        ensures
            old(self)@.wf(),
            final(self)@.wf(),
            final(self)@ == (ChooserView {
                active_filter_idx: match first_with_id(old(self)@.filters, filter_id) {
                    Some(p) => p,
                    None => old(self)@.active_filter_idx,
                },
                ..old(self)@
            }),
    {
        proof {
            use_type_invariant(&*self);
        }
        let ghost fv = filter_views(self.filters@);
        let mut i: usize = 0;
        assert(fv.take(0) =~= Seq::<FilterView>::empty());
        while i < self.filters.len()
            invariant
                *self == *old(self),
                old(self)@.wf(),
                fv == filter_views(self.filters@),
                i <= self.filters.len(),
                first_with_id(fv.take(i as int), filter_id) is None,
            decreases self.filters.len() - i,
        {
            proof {
                lemma_first_with_id_step(fv, filter_id, i as int);
            }
            assert(fv[i as int] == self.filters@[i as int]@);
            if self.filters[i].id == filter_id {
                proof {
                    lemma_first_with_id_prefix(fv, filter_id, i + 1);
                    lemma_first_with_id_in_range(fv, filter_id);
                }
                self.active_filter_idx = i;
                return;
            }
            i = i + 1;
        }
        assert(fv.take(i as int) =~= fv);
    }
}

proof fn lemma_first_with_id_prefix(filters: Seq<FilterView>, id: FilterId, n: int)
    requires
        0 <= n <= filters.len(),
        first_with_id(filters.take(n), id) is Some,
    ensures
        first_with_id(filters, id) == first_with_id(filters.take(n), id),
    decreases filters.len() - n,
{
    if n < filters.len() {
        lemma_first_with_id_step(filters, id, n);
        lemma_first_with_id_prefix(filters, id, n + 1);
    } else {
        assert(filters.take(n) =~= filters);
    }
}

proof fn lemma_first_accepting_prefix(filters: Seq<FilterView>, name: Seq<char>, n: int)
    requires
        0 <= n <= filters.len(),
        first_accepting(filters.take(n), name) is Some,
    ensures
        first_accepting(filters, name) == first_accepting(filters.take(n), name),
    decreases filters.len() - n,
{
    if n < filters.len() {
        lemma_first_accepting_step(filters, name, n);
        lemma_first_accepting_prefix(filters, name, n + 1);
    } else {
        assert(filters.take(n) =~= filters);
    }
}

proof fn lemma_first_some_in_range(filters: Seq<FilterView>, name: Seq<char>)
    ensures
        first_accepting(filters, name) matches Some(i) ==> i < filters.len(),
    decreases filters.len(),
{
    if filters.len() > 0 {
        lemma_first_some_in_range(filters.drop_last(), name);
    }
}

proof fn lemma_first_with_id_in_range(filters: Seq<FilterView>, id: FilterId)
    ensures
        first_with_id(filters, id) matches Some(i) ==> i < filters.len(),
    decreases filters.len(),
{
    if filters.len() > 0 {
        lemma_first_with_id_in_range(filters.drop_last(), id);
    }
}

proof fn lemma_first_named_in_range(entries: Seq<EntryView>, name: Seq<char>)
    requires
        entries.len() <= usize::MAX,
    ensures
        first_named(entries, name) matches Some(i) ==> i < entries.len() && entries[i as int].name == name,
    decreases entries.len(),
{
    if entries.len() > 0 {
        lemma_first_named_in_range(entries.drop_last(), name);
        if let Some(i) = first_named(entries.drop_last(), name) {
            assert(entries.drop_last()[i as int] == entries[i as int]);
        }
    }
}

proof fn lemma_last_named_in_range(entries: Seq<EntryView>, name: Seq<char>)
    ensures
        last_named(entries, name) matches Some(i) ==> i < entries.len(),
    decreases entries.len(),
{
    if entries.len() > 0 {
        lemma_last_named_in_range(entries.drop_last(), name);
    }
}


proof fn lemma_last_named_char(entries: Seq<EntryView>, name: Seq<char>, k: int)
    requires
        -1 <= k < entries.len(),
        entries.len() <= usize::MAX,
        k >= 0 ==> entries[k].name == name,
        forall|m: int| k < m < entries.len() ==> (#[trigger] entries[m]).name != name,
    ensures
        last_named(entries, name) == (if k >= 0 {
            Some(k as usize)
        } else {
            None::<usize>
        }),
    decreases entries.len(),
{
    if entries.len() > 0 && k < entries.len() - 1 {
        let d = entries.drop_last();
        assert forall|m: int| k < m < d.len() implies (#[trigger] d[m]).name != name by {
            assert(d[m] == entries[m]);
        }
        if k >= 0 {
            assert(d[k] == entries[k]);
        }
        lemma_last_named_char(d, name, k);
    }
}

fn last_named_in(entries: &Vec<FileEntry>, name: &str) -> (r: Option<usize>)
    ensures
        r == last_named(views(entries@), name@),
{
    let ghost v = views(entries@);
    let mut i: usize = entries.len();
    while i > 0
        invariant
            v == views(entries@),
            i <= entries.len(),
            forall|m: int| i <= m < v.len() ==> (#[trigger] v[m]).name != name@,
        decreases i,
    {
        assert(v[i - 1] == entries@[i - 1]@);
        if str_eq(entries[i - 1].name.as_str(), name) {
            proof {
                lemma_last_named_char(v, name@, i - 1);
            }
            return Some(i - 1);
        }
        i = i - 1;
    }
    proof {
        lemma_last_named_char(v, name@, -1);
    }
    None
}

impl FileChooser {
    /// Shows the directory `path` (already made absolute), with the entries
    /// that reading it gave.
    ///
    /// `..` is listed first when the directory has a non-empty parent; the
    /// last entry with the typed name becomes the selection; sorting, the
    /// visible list and the scroll position are to be redone; the search
    /// term and the directory popup are cleared.
    pub fn load_dir(&mut self, path: String, listing: Vec<FileEntry>)
        ensures
            old(self)@.wf(),
            final(self)@.wf(),
            final(self)@ == (ChooserView {
                path: path@,
                entries: listing_entries(path@, views(listing@)),
                selected: last_named(listing_entries(path@, views(listing@)), old(self)@.file_name),
                sort_dirty: true,
                visible_dirty: true,
                scroll_dirty: true,
                popup_dirs: Seq::empty(),
                search_term: Seq::empty(),
                ..old(self)@
            }),
    {
        proof {
            use_type_invariant(&*self);
        }
        let ghost lv = views(listing@);
        let mut listing = listing;
        let mut entries: Vec<FileEntry> = Vec::new();
        let has_parent = match parent_of(path.as_str()) {
            Some(t) => !t.as_str().is_empty(),
            None => false,
        };
        if has_parent {
            entries.push(FileEntry::dot_dot());
        }
        let ghost before = views(entries@);
        entries.append(&mut listing);
        proof {
            assert(views(entries@) =~= before + lv) by {
                assert(views(entries@).len() == before.len() + lv.len());
            }
            assert(views(entries@) =~= listing_entries(path@, lv));
        }
        let selected = last_named_in(&entries, self.file_name.as_str());
        proof {
            lemma_last_named_in_range(views(entries@), self.file_name@);
        }
        self.selected = None;
        self.entries = entries;
        self.selected = selected;
        self.path = path;
        self.sort_dirty = true;
        self.visible_dirty = true;
        self.scroll_dirty = true;
        self.popup_dirs = Vec::new();
        self.search_term = String::new();
        assert(dir_pair_views(self.popup_dirs@) =~= Seq::<(Seq<char>, bool)>::empty());
    }

    /// Reading the directory to be shown failed: the listing is left empty
    /// and nothing is selected; everything else stays.
    pub fn load_failed(&mut self)
        ensures
            old(self)@.wf(),
            final(self)@ == (ChooserView { entries: Seq::empty(), selected: None, ..old(self)@ }),
    {
        proof {
            use_type_invariant(&*self);
        }
        self.selected = None;
        self.entries = Vec::new();
        assert(views(self.entries@) =~= Seq::<EntryView>::empty());
    }

    /// Changes the typed file name.
    ///
    /// A non-empty name also makes the first filter that accepts it the
    /// active one, and the first entry with that name the selection; where
    /// there is none, those stay as they were.
    pub fn set_file_name(&mut self, file_name: String)
        ensures
            old(self)@.wf(),
            final(self)@.wf(),
            final(self)@ == (if file_name@.len() == 0 {
                ChooserView { file_name: file_name@, ..old(self)@ }
            } else {
                ChooserView {
                    file_name: file_name@,
                    active_filter_idx: match first_accepting(old(self)@.filters, file_name@) {
                        Some(i) => i,
                        None => old(self)@.active_filter_idx,
                    },
                    selected: match first_named(old(self)@.entries, file_name@) {
                        Some(i) => Some(i),
                        None => old(self)@.selected,
                    },
                    ..old(self)@
                }
            }),
    {
        proof {
            use_type_invariant(&*self);
        }
        self.file_name = file_name;
        if !self.file_name.as_str().is_empty() {
            if let Some(i) = self.first_accepting_filter(self.file_name.as_str()) {
                self.active_filter_idx = i;
            }
            if let Some(i) = first_named_in(&self.entries, self.file_name.as_str()) {
                proof {
                    assert(views(self.entries@).len() == self.entries.len());
                    lemma_first_named_in_range(views(self.entries@), self.file_name@);
                }
                self.selected = Some(i);
            }
        }
    }

    fn first_accepting_filter(&self, name: &str) -> (r: Option<usize>)
        ensures
            r == first_accepting(self@.filters, name@),
            r matches Some(i) ==> i < self@.filters.len(),
    {
        let ghost fv = filter_views(self.filters@);
        let mut i: usize = 0;
        assert(fv.take(0) =~= Seq::<FilterView>::empty());
        while i < self.filters.len()
            invariant
                fv == filter_views(self.filters@),
                fv == self@.filters,
                i <= self.filters.len(),
                first_accepting(fv.take(i as int), name@) is None,
            decreases self.filters.len() - i,
        {
            proof {
                lemma_first_accepting_step(fv, name@, i as int);
            }
            assert(fv[i as int] == self.filters@[i as int]@);
            if self.filters[i].matches(name) {
                proof {
                    lemma_first_accepting_prefix(fv, name@, i + 1);
                }
                return Some(i);
            }
            i = i + 1;
        }
        assert(fv.take(i as int) =~= fv);
        None
    }

    /// Adds a filter to the list of filters.
    ///
    /// When a name is typed that the active filter does not accept, and the
    /// new filter accepts it, the new filter becomes the active one. The
    /// visible list is to be redone.
    pub fn add_filter(&mut self, filter: Filter)
        ensures
            old(self)@.wf(),
            final(self)@.wf(),
            final(self)@ == (ChooserView {
                filters: old(self)@.filters.push(filter@),
                active_filter_idx: if old(self)@.file_name.len() > 0 && !filter_accepts(
                    old(self)@.filters.push(filter@)[old(self)@.active_filter_idx as int],
                    old(self)@.file_name,
                ) && filter_accepts(filter@, old(self)@.file_name) {
                    old(self)@.filters.len() as usize
                } else {
                    old(self)@.active_filter_idx
                },
                visible_dirty: true,
                ..old(self)@
            }),
    {
        proof {
            use_type_invariant(&*self);
        }
        let ghost fv_old = filter_views(self.filters@);
        let ghost f_view = filter@;
        let old_idx = self.active_filter_idx;
        self.active_filter_idx = 0;
        let mut fs: Vec<Filter> = Vec::new();
        std::mem::swap(&mut fs, &mut self.filters);
        fs.push(filter);
        assert(filter_views(fs@) =~= fv_old.push(f_view));
        let n = fs.len();
        let mut idx = old_idx;
        if !self.file_name.as_str().is_empty() {
            assert(filter_views(fs@)[idx as int] == fs@[idx as int]@);
            if !fs[idx].matches(self.file_name.as_str()) {
                assert(filter_views(fs@)[n - 1] == fs@[n - 1]@);
                if fs[n - 1].matches(self.file_name.as_str()) {
                    idx = n - 1;
                }
            }
        }
        self.filters = fs;
        self.active_filter_idx = idx;
        self.visible_dirty = true;
    }
}


/// Whether the listing shows entry `e`: hidden entries only when hidden
/// ones are shown; files and directories only when their lowercased name
/// contains the lowercased search term (if there is one); files only when
/// the active filter (if there is one) accepts them.
pub open spec fn entry_visible(v: ChooserView, e: EntryView) -> bool {
    &&& !(!v.show_hidden && e.hidden)
    &&& !((e.kind == FileEntryKind::File || e.kind == FileEntryKind::Directory) && v.search_term.len() > 0
        && !seq_contains(lowercase(e.name), lowercase(v.search_term)))
    &&& !(e.kind == FileEntryKind::File && v.filters.len() > 0 && !filter_accepts(
        v.filters[v.active_filter_idx as int],
        e.name,
    ))
}

/// The indices, in order, of the visible entries among the first `n`.
pub open spec fn visible_upto(v: ChooserView, n: int) -> Seq<usize>
    decreases n,
{
    if n <= 0 {
        Seq::empty()
    } else {
        visible_upto(v, n - 1) + if entry_visible(v, v.entries[n - 1]) {
            seq![(n - 1) as usize]
        } else {
            Seq::empty()
        }
    }
}

proof fn lemma_visible_upto_range(v: ChooserView, n: int)
    requires
        0 <= n <= usize::MAX + 1,
    ensures
        forall|k: int| 0 <= k < visible_upto(v, n).len() ==> #[trigger] visible_upto(v, n)[k] < n,
    decreases n,
{
    if n > 0 {
        lemma_visible_upto_range(v, n - 1);
        let a = visible_upto(v, n - 1);
        let b = visible_upto(v, n);
        assert forall|k: int| 0 <= k < b.len() implies #[trigger] b[k] < n by {
            if k < a.len() {
                assert(b[k] == a[k]);
            }
        }
    }
}

/// The visible list respects the options of the listing: it goes up through
/// the entries, each listed at most once; while hidden entries are not
/// shown, none of them is listed, whatever its kind; while a search term is
/// typed, every listed file or directory has the lowercased term in its
/// lowercased name; while there are filters, every listed file is accepted
/// by the active one. Every entry that passes these tests is listed.
pub open spec fn visible_respects_options(v: ChooserView) -> bool {
    &&& forall|j: int, k: int|
        0 <= j < k < v.visible_entries.len() ==> #[trigger] v.visible_entries[j]
            < #[trigger] v.visible_entries[k]
    &&& forall|k: int|
        0 <= k < v.visible_entries.len() ==> {
            let i = #[trigger] v.visible_entries[k];
            let e = v.entries[i as int];
            &&& i < v.entries.len()
            &&& !v.show_hidden ==> !e.hidden
            &&& (e.kind == FileEntryKind::File || e.kind == FileEntryKind::Directory)
                && v.search_term.len() > 0 ==> seq_contains(lowercase(e.name), lowercase(v.search_term))
            &&& e.kind == FileEntryKind::File && v.filters.len() > 0 ==> filter_accepts(
                v.filters[v.active_filter_idx as int],
                e.name,
            )
        }
    &&& forall|i: int|
        0 <= i < v.entries.len() ==> ({
            let e = #[trigger] v.entries[i];
            &&& v.show_hidden || !e.hidden
            &&& (e.kind == FileEntryKind::File || e.kind == FileEntryKind::Directory)
                && v.search_term.len() > 0 ==> seq_contains(lowercase(e.name), lowercase(v.search_term))
            &&& e.kind == FileEntryKind::File && v.filters.len() > 0 ==> filter_accepts(
                v.filters[v.active_filter_idx as int],
                e.name,
            )
        }) ==> v.visible_entries.contains(i as usize)
}

proof fn lemma_visible_upto_sound(v: ChooserView, n: int)
    requires
        0 <= n <= v.entries.len(),
        n <= usize::MAX + 1,
    ensures
        forall|j: int, k: int|
            0 <= j < k < visible_upto(v, n).len() ==> #[trigger] visible_upto(v, n)[j]
                < #[trigger] visible_upto(v, n)[k],
        forall|k: int|
            0 <= k < visible_upto(v, n).len() ==> #[trigger] visible_upto(v, n)[k] < n
                && entry_visible(v, v.entries[visible_upto(v, n)[k] as int]),
        forall|i: int|
            0 <= i < n && entry_visible(v, #[trigger] v.entries[i]) ==> visible_upto(v, n).contains(
                i as usize,
            ),
    decreases n,
{
    if n > 0 {
        lemma_visible_upto_sound(v, n - 1);
        let a = visible_upto(v, n - 1);
        let b = visible_upto(v, n);
        assert forall|i: int| 0 <= i < n && entry_visible(v, #[trigger] v.entries[i]) implies b.contains(
            i as usize,
        ) by {
            if i < n - 1 {
                let k = choose|k: int| 0 <= k < a.len() && a[k] == i as usize;
                assert(b[k] == a[k]);
            } else {
                assert(b[a.len() as int] == (n - 1) as usize);
            }
        }
        assert forall|k: int| 0 <= k < b.len() implies #[trigger] b[k] < n && entry_visible(
            v,
            v.entries[b[k] as int],
        ) by {
            if k < a.len() {
                assert(b[k] == a[k]);
            }
        }
        assert forall|j: int, k: int| 0 <= j < k < b.len() implies #[trigger] b[j] < #[trigger] b[k] by {
            assert(b[j] == a[j]);
            if k < a.len() {
                assert(b[k] == a[k]);
            }
        }
    }
}

/// A visible list made by the rules of the listing respects its options.
pub proof fn lemma_listing_respects_options(v: ChooserView)
    requires
        v.entries.len() <= usize::MAX,
        v.visible_entries == visible_upto(v, v.entries.len() as int),
    ensures
        visible_respects_options(v),
{
    lemma_visible_upto_sound(v, v.entries.len() as int);
    assert forall|k: int| 0 <= k < v.visible_entries.len() implies {
        let i = #[trigger] v.visible_entries[k];
        let e = v.entries[i as int];
        &&& i < v.entries.len()
        &&& !v.show_hidden ==> !e.hidden
        &&& (e.kind == FileEntryKind::File || e.kind == FileEntryKind::Directory)
            && v.search_term.len() > 0 ==> seq_contains(lowercase(e.name), lowercase(v.search_term))
        &&& e.kind == FileEntryKind::File && v.filters.len() > 0 ==> filter_accepts(
            v.filters[v.active_filter_idx as int],
            e.name,
        )
    } by {
        assert(v.visible_entries[k] == visible_upto(v, v.entries.len() as int)[k]);
    }
    assert forall|i: int|
        0 <= i < v.entries.len() && entry_visible(v, #[trigger] v.entries[i]) implies v.visible_entries.contains(
        i as usize,
    ) by {}
}

/// Position, in the visible list, of the first visible entry named `name`
/// among the first `n` visible ones.
pub open spec fn first_visible_named(v: ChooserView, name: Seq<char>, n: int) -> Option<int>
    decreases n,
{
    if n <= 0 {
        None
    } else {
        match first_visible_named(v, name, n - 1) {
            Some(k) => Some(k),
            None => if v.entries[v.visible_entries[n - 1] as int].name == name {
                Some(n - 1)
            } else {
                None
            },
        }
    }
}

/// Position, in the visible list, of the first visible file whose stem is
/// `name`, among the first `n` visible ones.
pub open spec fn first_visible_stem(v: ChooserView, name: Seq<char>, n: int) -> Option<int>
    decreases n,
{
    if n <= 0 {
        None
    } else {
        match first_visible_stem(v, name, n - 1) {
            Some(k) => Some(k),
            None => if v.entries[v.visible_entries[n - 1] as int].kind == FileEntryKind::File
                && path_file_stem(v.entries[v.visible_entries[n - 1] as int].name) == Some(name) {
                Some(n - 1)
            } else {
                None
            },
        }
    }
}

/// The path that the typed name designates, and what it is.
///
/// An empty name designates nothing; `.` the current directory; `..` its
/// parent (or itself, if it has none). Otherwise the first visible entry
/// with that name decides (a file, or else a directory); failing that, a
/// name with no extension designates the first visible file with that stem;
/// failing that, it is a new file, or nothing if the chooser only accepts
/// existing files.
pub open spec fn spec_applicable_path(v: ChooserView) -> (Seq<char>, ApplicablePathRes) {
    let f = v.file_name;
    if f.len() == 0 {
        (Seq::empty(), ApplicablePathRes::Forbidden)
    } else if f == seq!['.'] {
        (v.path, ApplicablePathRes::Directory)
    } else if f == seq!['.', '.'] {
        (
            match path_parent(v.path) {
                Some(p) => p,
                None => v.path,
            },
            ApplicablePathRes::Directory,
        )
    } else {
        match first_visible_named(v, f, v.visible_entries.len() as int) {
            Some(k) => {
                let e = v.entries[v.visible_entries[k] as int];
                if e.kind == FileEntryKind::File {
                    (path_join(v.path, e.name), ApplicablePathRes::ExistingFile)
                } else {
                    (path_join(v.path, f), ApplicablePathRes::Directory)
                }
            },
            None => {
                let stem = if path_extension(f) is Some {
                    None
                } else {
                    first_visible_stem(v, f, v.visible_entries.len() as int)
                };
                match stem {
                    Some(k) => (
                        path_join(v.path, v.entries[v.visible_entries[k] as int].name),
                        ApplicablePathRes::ExistingFile,
                    ),
                    None => (
                        path_join(v.path, f),
                        if v.flags.spec_contains(Flags { bits: 2 }) {
                            ApplicablePathRes::Forbidden
                        } else {
                            ApplicablePathRes::NewEntry
                        },
                    ),
                }
            },
        }
    }
}

/// The full path that "OK" gives: the designated path, with the default
/// extension (if any) added when the path has none and designates a new
/// file.
pub open spec fn spec_full_path(v: ChooserView, default_extension: Option<Seq<char>>) -> Seq<char> {
    let (res, _) = spec_applicable_path(v);
    match default_extension {
        Some(ext) => if takes_default_extension(v) {
            path_with_extension(res, ext)
        } else {
            res
        },
        None => res,
    }
}

/// The default extension applies: the name designates a new file, it has
/// no extension of its own, and no entry of the directory has that name
/// (shown or not).
pub open spec fn takes_default_extension(v: ChooserView) -> bool {
    let (res, exists) = spec_applicable_path(v);
    &&& path_extension(res) is None
    &&& exists == ApplicablePathRes::NewEntry
    &&& first_named(v.entries, v.file_name) is None
}

impl FileChooser {
    /// Sorts the entries by the given criteria (a stable sort, `..` first),
    /// keeps the selection on the first entry with the name of the selected
    /// one, and marks the visible list to be redone.
    pub fn resort_entries(&mut self, specs: &Vec<SortSpec>)
        ensures
            old(self)@.wf(),
            final(self)@.wf(),
            is_stable_sort(specs@, old(self)@.entries, final(self)@.entries),
            final(self)@ == (ChooserView {
                entries: final(self)@.entries,
                selected: match old(self)@.selected {
                    Some(i) => first_named(final(self)@.entries, old(self)@.entries[i as int].name),
                    None => None,
                },
                visible_dirty: true,
                ..old(self)@
            }),
    {
        proof {
            use_type_invariant(&*self);
        }
        let sel = match self.selected {
            Some(i) => {
                assert(views(self.entries@)[i as int] == self.entries@[i as int]@);
                Some(self.entries[i].name.clone())
            },
            None => None,
        };
        self.selected = None;
        let mut tmp: Vec<FileEntry> = Vec::new();
        std::mem::swap(&mut tmp, &mut self.entries);
        let sorted = stable_sort_entries(tmp, specs);
        self.entries = sorted;
        self.selected = match sel {
            Some(n) => {
                let r = first_named_in(&self.entries, n.as_str());
                proof {
                    assert(views(self.entries@).len() == self.entries.len());
                    lemma_first_named_in_range(views(self.entries@), n@);
                }
                r
            },
            None => None,
        };
        self.visible_dirty = true;
    }

    /// Recomputes the list of visible entries, in listing order.
    pub fn recompute_visible_entries(&mut self)
        ensures
            old(self)@.wf(),
            final(self)@.wf(),
            final(self)@.visible_in_range(),
            final(self)@ == (ChooserView {
                visible_entries: visible_upto(old(self)@, old(self)@.entries.len() as int),
                ..old(self)@
            }),
            visible_respects_options(final(self)@),
    {
        proof {
            use_type_invariant(&*self);
        }
        let ghost v = self@;
        let lower = to_lowercase(self.search_term.as_str());
        let term = chars_of(lower.as_str());
        let mut visible: Vec<usize> = Vec::new();
        let mut i: usize = 0;
        let n = self.entries.len();
        let has_filter = self.filters.len() > 0;
        while i < n
            invariant
                *self == *old(self),
                v == old(self)@,
                v.wf(),
                n == self.entries.len(),
                n == v.entries.len(),
                term@ == lowercase(v.search_term),
                (term@.len() == 0) == (v.search_term.len() == 0),
                has_filter == (v.filters.len() > 0),
                i <= n,
                visible@ == visible_upto(v, i as int),
            decreases n - i,
        {
            let entry = &self.entries[i];
            assert(v.entries[i as int] == entry@);
            let mut keep = true;
            if !self.show_hidden && entry.hidden {
                keep = false;
            }
            let file_or_dir = entry.kind == FileEntryKind::File || entry.kind == FileEntryKind::Directory;
            if keep && file_or_dir && term.len() > 0 {
                let lname = to_lowercase(entry.name.as_str());
                let lchars = chars_of(lname.as_str());
                if !contains_chars(&lchars, &term) {
                    keep = false;
                }
            }
            if keep && entry.kind == FileEntryKind::File && has_filter {
                assert(v.filters[v.active_filter_idx as int] == self.filters@[self.active_filter_idx as int]@);
                if !self.filters[self.active_filter_idx].matches(entry.name.as_str()) {
                    keep = false;
                }
            }
            assert(keep == entry_visible(v, v.entries[i as int]));
            if keep {
                visible.push(i);
            }
            i = i + 1;
            assert(visible@ =~= visible_upto(v, i as int));
        }
        proof {
            lemma_visible_upto_range(v, n as int);
        }
        self.visible_entries = visible;
        proof {
            lemma_visible_upto_same(v, self@, n as int);
            lemma_listing_respects_options(self@);
        }
    }
}


proof fn lemma_first_visible_named_mono(v: ChooserView, name: Seq<char>, m: int, n: int)
    requires
        0 <= m <= n,
        first_visible_named(v, name, m) is Some,
    ensures
        first_visible_named(v, name, n) == first_visible_named(v, name, m),
    decreases n - m,
{
    if m < n {
        lemma_first_visible_named_mono(v, name, m, n - 1);
    }
}

proof fn lemma_first_visible_stem_mono(v: ChooserView, name: Seq<char>, m: int, n: int)
    requires
        0 <= m <= n,
        first_visible_stem(v, name, m) is Some,
    ensures
        first_visible_stem(v, name, n) == first_visible_stem(v, name, m),
    decreases n - m,
{
    if m < n {
        lemma_first_visible_stem_mono(v, name, m, n - 1);
    }
}

proof fn lemma_first_visible_named_range(v: ChooserView, name: Seq<char>, n: int)
    ensures
        first_visible_named(v, name, n) matches Some(k) ==> 0 <= k < n,
    decreases n,
{
    if n > 0 {
        lemma_first_visible_named_range(v, name, n - 1);
    }
}

proof fn lemma_first_visible_stem_range(v: ChooserView, name: Seq<char>, n: int)
    ensures
        first_visible_stem(v, name, n) matches Some(k) ==> 0 <= k < n,
    decreases n,
{
    if n > 0 {
        lemma_first_visible_stem_range(v, name, n - 1);
    }
}

impl FileChooser {
    fn find_visible_named(&self, name: &str) -> (r: Option<usize>)
        requires
            self@.visible_in_range(),
        ensures
            r matches Some(k) ==> first_visible_named(self@, name@, self@.visible_entries.len() as int) == Some(k as int),
            r is None ==> first_visible_named(self@, name@, self@.visible_entries.len() as int) is None,
            r matches Some(k) ==> k < self@.visible_entries.len(),
    {
        let ghost v = self@;
        let n = self.visible_entries.len();
        let mut k: usize = 0;
        while k < n
            invariant
                v == self@,
                v.visible_in_range(),
                n == v.visible_entries.len(),
                n == self.visible_entries.len(),
                v.entries.len() == self.entries.len(),
                k <= n,
                first_visible_named(v, name@, k as int) is None,
            decreases n - k,
        {
            let i = self.visible_entries[k];
            assert(v.visible_entries[k as int] == i);
            assert(i < self.entries.len());
            assert(v.entries[i as int] == self.entries@[i as int]@);
            if str_eq(self.entries[i].name.as_str(), name) {
                proof {
                    lemma_first_visible_named_mono(v, name@, k + 1, n as int);
                }
                return Some(k);
            }
            k = k + 1;
        }
        None
    }

    fn find_visible_stem(&self, name: &str) -> (r: Option<usize>)
        requires
            self@.visible_in_range(),
        ensures
            r matches Some(k) ==> first_visible_stem(self@, name@, self@.visible_entries.len() as int) == Some(k as int),
            r is None ==> first_visible_stem(self@, name@, self@.visible_entries.len() as int) is None,
            r matches Some(k) ==> k < self@.visible_entries.len(),
    {
        let ghost v = self@;
        let n = self.visible_entries.len();
        let mut k: usize = 0;
        while k < n
            invariant
                v == self@,
                v.visible_in_range(),
                n == v.visible_entries.len(),
                n == self.visible_entries.len(),
                v.entries.len() == self.entries.len(),
                k <= n,
                first_visible_stem(v, name@, k as int) is None,
            decreases n - k,
        {
            let i = self.visible_entries[k];
            assert(v.visible_entries[k as int] == i);
            assert(i < self.entries.len());
            assert(v.entries[i as int] == self.entries@[i as int]@);
            let e = &self.entries[i];
            if e.kind == FileEntryKind::File {
                let stem = file_stem_of(e.name.as_str());
                let same = match &stem {
                    Some(st) => str_eq(st.as_str(), name),
                    None => false,
                };
                if same {
                    proof {
                        lemma_first_visible_stem_mono(v, name@, k + 1, n as int);
                    }
                    return Some(k);
                }
            }
            k = k + 1;
        }
        None
    }

    /// The path that the typed name designates, and what it is (see
    /// [`spec_applicable_path`]).
    pub fn applicable_path(&self) -> (r: (String, ApplicablePathRes))
        requires
            self@.visible_in_range(),
        ensures
            self@.wf(),
            (r.0@, r.1) == spec_applicable_path(self@),
    {
        proof {
            use_type_invariant(&*self);
        }
        let ghost v = self@;
        let file_name = self.file_name();
        proof {
            reveal_strlit(".");
            reveal_strlit("..");
            assert("."@ =~= seq!['.']);
            assert(".."@ =~= seq!['.', '.']);
        }
        if file_name.is_empty() {
            (String::new(), ApplicablePathRes::Forbidden)
        } else if str_eq(file_name, ".") {
            (self.path.clone(), ApplicablePathRes::Directory)
        } else if str_eq(file_name, "..") {
            let p = match parent_of(self.path.as_str()) {
                Some(p) => p,
                None => self.path.clone(),
            };
            (p, ApplicablePathRes::Directory)
        } else {
            match self.find_visible_named(file_name) {
                Some(k) => {
                    let i = self.visible_entries[k];
                    assert(i < self.entries.len());
                    assert(v.entries[i as int] == self.entries@[i as int]@);
                    let e = &self.entries[i];
                    if e.kind == FileEntryKind::File {
                        (join(self.path.as_str(), e.name.as_str()), ApplicablePathRes::ExistingFile)
                    } else {
                        (join(self.path.as_str(), file_name), ApplicablePathRes::Directory)
                    }
                },
                None => {
                    let has_ext = extension_of(file_name).is_some();
                    let stem = if has_ext {
                        None
                    } else {
                        self.find_visible_stem(file_name)
                    };
                    match stem {
                        Some(k) => {
                            let i = self.visible_entries[k];
                            assert(i < self.entries.len());
                            assert(v.entries[i as int] == self.entries@[i as int]@);
                            (join(self.path.as_str(), self.entries[i].name.as_str()), ApplicablePathRes::ExistingFile)
                        },
                        None => {
                            let res = if self.flags.contains(Flags::must_exist()) {
                                ApplicablePathRes::Forbidden
                            } else {
                                ApplicablePathRes::NewEntry
                            };
                            (join(self.path.as_str(), file_name), res)
                        },
                    }
                },
            }
        }
    }

    /// Combines the directory and the typed name, and optionally an
    /// extension.
    ///
    /// The `default_extension` is only used if the name designates a new
    /// file whose path has no extension of its own.
    pub fn full_path(&self, default_extension: Option<&str>) -> (r: String)
        requires
            self@.visible_in_range(),
            match default_extension {
                Some(e) => takes_default_extension(self@) ==> no_separator(e@),
                None => true,
            },
        ensures
            self@.wf(),
            r@ == spec_full_path(
                self@,
                match default_extension {
                    Some(e) => Some(e@),
                    None => None,
                },
            ),
    {
        proof {
            use_type_invariant(&*self);
        }
        let (res, exists) = self.applicable_path();
        match default_extension {
            Some(new_ext) => {
                if extension_of(res.as_str()).is_none() && exists == ApplicablePathRes::NewEntry
                    && first_named_in(&self.entries, self.file_name.as_str()).is_none() {
                    with_extension(res.as_str(), new_ext)
                } else {
                    res
                }
            },
            None => res,
        }
    }

    /// Like [`FileChooser::full_path`], but gives `None` instead where the
    /// default extension holds a path separator.
    pub fn try_full_path(&self, default_extension: Option<&str>) -> (r: Option<String>)
        requires
            self@.visible_in_range(),
        ensures
            self@.wf(),
            match default_extension {
                Some(e) => if no_separator(e@) {
                    r matches Some(p) && p@ == spec_full_path(self@, Some(e@))
                } else {
                    r is None
                },
                None => r matches Some(p) && p@ == spec_full_path(self@, None),
            },
    {
        proof {
            use_type_invariant(&*self);
        }
        match default_extension {
            Some(e) => {
                let c = chars_of(e);
                let mut i: usize = 0;
                while i < c.len()
                    invariant
                        self@.wf(),
                        default_extension == Some(e),
                        c@ == e@,
                        i <= c.len(),
                        forall|k: int| 0 <= k < i ==> !path_separator(#[trigger] c@[k]),
                    decreases c.len() - i,
                {
                    if is_separator(c[i]) {
                        assert(path_separator(e@[i as int]));
                        assert(!no_separator(e@));
                        return None;
                    }
                    i = i + 1;
                }
                Some(self.full_path(Some(e)))
            },
            None => Some(self.full_path(None)),
        }
    }
}


/// Where the listing has to scroll to.
#[derive(Clone, Copy, PartialEq, Eq, Structural, Debug)]
pub enum ScrollRequest {
    /// Nothing to do.
    Keep,
    /// Bring the given row of the visible list into view.
    ToRow(usize),
    /// Scroll to the top.
    ToTop,
}

/// Position of `i` in the visible list, if it is there.
pub open spec fn visible_position(visible: Seq<usize>, i: usize) -> Option<usize>
    decreases visible.len(),
{
    if visible.len() == 0 {
        None
    } else {
        match visible_position(visible.drop_last(), i) {
            Some(k) => Some(k),
            None => if visible.last() == i {
                Some((visible.len() - 1) as usize)
            } else {
                None
            },
        }
    }
}

impl FileChooser {
    /// The entries of the current directory, in listing order.
    pub fn entries(&self) -> (r: &Vec<FileEntry>)
        ensures
            self@.wf(),
            views(r@) == self@.entries,
    {
        proof {
            use_type_invariant(&*self);
        }
        &self.entries
    }

    /// The indices of the visible entries, in listing order.
    pub fn visible_entries(&self) -> (r: &Vec<usize>)
        ensures
            self@.wf(),
            r@ == self@.visible_entries,
    {
        proof {
            use_type_invariant(&*self);
        }
        &self.visible_entries
    }

    /// The filters, in the order they were added.
    pub fn filters(&self) -> (r: &Vec<Filter>)
        ensures
            self@.wf(),
            filter_views(r@) == self@.filters,
    {
        proof {
            use_type_invariant(&*self);
        }
        &self.filters
    }

    /// The option flags.
    pub fn flags(&self) -> (r: Flags)
        ensures
            self@.wf(),
            r == self@.flags,
    {
        proof {
            use_type_invariant(&*self);
        }
        self.flags
    }

    /// Whether hidden entries are shown.
    pub fn show_hidden(&self) -> (r: bool)
        ensures
            self@.wf(),
            r == self@.show_hidden,
    {
        proof {
            use_type_invariant(&*self);
        }
        self.show_hidden
    }

    /// The search term typed in the search box.
    pub fn search_term(&self) -> (r: &str)
        ensures
            self@.wf(),
            r@ == self@.search_term,
    {
        proof {
            use_type_invariant(&*self);
        }
        self.search_term.as_str()
    }

    /// The position of the active filter in the list of filters.
    pub fn active_filter_index(&self) -> (r: usize)
        ensures
            self@.wf(),
            r == self@.active_filter_idx,
    {
        proof {
            use_type_invariant(&*self);
        }
        self.active_filter_idx
    }

    /// The directories offered by the path popup, with the one that is
    /// current marked.
    pub fn popup_dirs(&self) -> (r: &Vec<(String, bool)>)
        ensures
            self@.wf(),
            dir_pair_views(r@) == self@.popup_dirs,
    {
        proof {
            use_type_invariant(&*self);
        }
        &self.popup_dirs
    }

    /// The user clicked the entry `i_entry`: it becomes the selection and
    /// its name the typed name. On a double click, `..` navigates to the
    /// parent directory (if there is one), a directory or root into it, and
    /// a file is accepted.
    pub fn activate_entry(&mut self, i_entry: usize, double_click: bool) -> (r: Activation)
        requires
            i_entry < old(self)@.entries.len(),
        ensures
            old(self)@.wf(),
            final(self)@.wf(),
            final(self)@ == (ChooserView {
                selected: Some(i_entry),
                file_name: old(self)@.entries[i_entry as int].name,
                ..old(self)@
            }),
            r@ == (if !double_click {
                ActivationView::Stay
            } else {
                match old(self)@.entries[i_entry as int].kind {
                    FileEntryKind::Parent => match path_parent(old(self)@.path) {
                        Some(p) => ActivationView::Navigate(p),
                        None => ActivationView::Stay,
                    },
                    FileEntryKind::Directory | FileEntryKind::Root => ActivationView::Navigate(
                        path_join(old(self)@.path, old(self)@.entries[i_entry as int].name),
                    ),
                    FileEntryKind::File => ActivationView::Accept,
                }
            }),
    {
        proof {
            use_type_invariant(&*self);
        }
        assert(views(self.entries@)[i_entry as int] == self.entries@[i_entry as int]@);
        self.selected = Some(i_entry);
        self.file_name = self.entries[i_entry].name.clone();
        if !double_click {
            return Activation::Stay;
        }
        match self.entries[i_entry].kind {
            FileEntryKind::Parent => match parent_of(self.path.as_str()) {
                Some(p) => Activation::Navigate(p),
                None => Activation::Stay,
            },
            FileEntryKind::Directory | FileEntryKind::Root => Activation::Navigate(
                join(self.path.as_str(), self.entries[i_entry].name.as_str()),
            ),
            FileEntryKind::File => Activation::Accept,
        }
    }

    /// The user typed in the file name box: only the typed name changes.
    pub fn edit_file_name(&mut self, file_name: String)
        ensures
            old(self)@.wf(),
            final(self)@ == (ChooserView { file_name: file_name@, ..old(self)@ }),
    {
        proof {
            use_type_invariant(&*self);
        }
        self.file_name = file_name;
    }

    /// The user toggled the "show hidden" button.
    pub fn toggle_hidden(&mut self)
        ensures
            old(self)@.wf(),
            final(self)@ == (ChooserView {
                show_hidden: !old(self)@.show_hidden,
                visible_dirty: true,
                ..old(self)@
            }),
    {
        proof {
            use_type_invariant(&*self);
        }
        self.show_hidden = !self.show_hidden;
        self.visible_dirty = true;
    }

    /// The user edited the search term.
    pub fn set_search_term(&mut self, term: String)
        ensures
            old(self)@.wf(),
            final(self)@ == (ChooserView {
                search_term: term@,
                visible_dirty: true,
                ..old(self)@
            }),
    {
        proof {
            use_type_invariant(&*self);
        }
        self.search_term = term;
        self.visible_dirty = true;
    }

    /// The user chose the filter at position `idx` in the combo box.
    pub fn select_filter(&mut self, idx: usize)
        requires
            idx < old(self)@.filters.len(),
        ensures
            old(self)@.wf(),
            final(self)@ == (ChooserView {
                active_filter_idx: idx,
                visible_dirty: true,
                ..old(self)@
            }),
    {
        proof {
            use_type_invariant(&*self);
        }
        self.active_filter_idx = idx;
        self.visible_dirty = true;
    }

    /// Whether "OK" is enabled: the typed name designates something.
    pub fn can_ok(&self) -> (r: bool)
        requires
            self@.visible_in_range(),
        ensures
            self@.wf(),
            r == (spec_applicable_path(self@).1 != ApplicablePathRes::Forbidden),
    {
        proof {
            use_type_invariant(&*self);
        }
        let (_, exists) = self.applicable_path();
        exists != ApplicablePathRes::Forbidden
    }

    /// The user pressed "OK" (or Enter): a directory is navigated into, a
    /// file (listed or new) is accepted, and otherwise nothing happens.
    pub fn press_ok(&self) -> (r: Activation)
        requires
            self@.visible_in_range(),
        ensures
            self@.wf(),
            r@ == (match spec_applicable_path(self@).1 {
                ApplicablePathRes::Directory => ActivationView::Navigate(spec_applicable_path(self@).0),
                ApplicablePathRes::ExistingFile | ApplicablePathRes::NewEntry => ActivationView::Accept,
                ApplicablePathRes::Forbidden => ActivationView::Stay,
            }),
    {
        proof {
            use_type_invariant(&*self);
        }
        let (path, exists) = self.applicable_path();
        match exists {
            ApplicablePathRes::Directory => Activation::Navigate(path),
            ApplicablePathRes::ExistingFile | ApplicablePathRes::NewEntry => Activation::Accept,
            ApplicablePathRes::Forbidden => Activation::Stay,
        }
    }

    /// The user asked for the list of roots of the filesystem: they become
    /// the entries of a directory with an empty path.
    pub fn show_roots(&mut self, roots: Vec<FileEntry>)
        ensures
            old(self)@.wf(),
            final(self)@.wf(),
            final(self)@ == (ChooserView {
                entries: views(roots@),
                path: Seq::empty(),
                selected: None,
                sort_dirty: true,
                visible_dirty: true,
                scroll_dirty: true,
                popup_dirs: Seq::empty(),
                search_term: Seq::empty(),
                ..old(self)@
            }),
    {
        proof {
            use_type_invariant(&*self);
        }
        self.selected = None;
        self.entries = roots;
        self.path = String::new();
        self.sort_dirty = true;
        self.visible_dirty = true;
        self.scroll_dirty = true;
        self.popup_dirs = Vec::new();
        self.search_term = String::new();
        assert(dir_pair_views(self.popup_dirs@) =~= Seq::<(Seq<char>, bool)>::empty());
    }

    /// Gets the listing ready for drawing: sorts it when the sorting
    /// criteria changed or the directory was reloaded, and recomputes the
    /// visible list when needed (which also asks to scroll).
    pub fn update_listing(&mut self, specs: &Vec<SortSpec>, specs_changed: bool)
        ensures
            old(self)@.wf(),
            final(self)@.wf(),
            ({
                let resort = specs_changed || old(self)@.sort_dirty;
                let recompute = resort || old(self)@.visible_dirty;
                &&& resort ==> is_stable_sort(specs@, old(self)@.entries, final(self)@.entries)
                &&& resort ==> final(self)@.selected == (match old(self)@.selected {
                    Some(i) => first_named(final(self)@.entries, old(self)@.entries[i as int].name),
                    None => None,
                })
                &&& !resort ==> final(self)@.entries == old(self)@.entries && final(self)@.selected
                    == old(self)@.selected
                &&& recompute ==> final(self)@.visible_entries == visible_upto(
                    final(self)@,
                    final(self)@.entries.len() as int,
                ) && final(self)@.scroll_dirty
                &&& !recompute ==> final(self)@.visible_entries == old(self)@.visible_entries
                    && final(self)@.scroll_dirty == old(self)@.scroll_dirty
                &&& final(self)@ == (ChooserView {
                    entries: final(self)@.entries,
                    selected: final(self)@.selected,
                    visible_entries: final(self)@.visible_entries,
                    scroll_dirty: final(self)@.scroll_dirty,
                    sort_dirty: false,
                    visible_dirty: false,
                    ..old(self)@
                })
            }),
            (specs_changed || old(self)@.sort_dirty || old(self)@.visible_dirty)
                ==> final(self)@.visible_in_range(),
            (specs_changed || old(self)@.sort_dirty || old(self)@.visible_dirty)
                ==> visible_respects_options(final(self)@),
    {
        proof {
            use_type_invariant(&*self);
        }
        if specs_changed || self.sort_dirty {
            self.sort_dirty = false;
            self.resort_entries(specs);
        }
        if self.visible_dirty {
            self.visible_dirty = false;
            self.scroll_dirty = true;
            let ghost mid = self@;
            self.recompute_visible_entries();
            proof {
                lemma_visible_upto_same(mid, self@, self@.entries.len() as int);
            }
        }
    }

    /// Takes the pending scroll request: the row of the selected entry if it
    /// is visible, or else the top.
    pub fn take_scroll_request(&mut self) -> (r: ScrollRequest)
        ensures
            old(self)@.wf(),
            final(self)@ == (ChooserView { scroll_dirty: false, ..old(self)@ }),
            r == (if !old(self)@.scroll_dirty {
                ScrollRequest::Keep
            } else {
                match old(self)@.selected {
                    Some(i) => match visible_position(old(self)@.visible_entries, i) {
                        Some(k) => ScrollRequest::ToRow(k),
                        None => ScrollRequest::ToTop,
                    },
                    None => ScrollRequest::ToTop,
                }
            }),
    {
        proof {
            use_type_invariant(&*self);
        }
        if !self.scroll_dirty {
            return ScrollRequest::Keep;
        }
        self.scroll_dirty = false;
        match self.selected {
            Some(i) => {
                let n = self.visible_entries.len();
                let mut k: usize = 0;
                while k < n
                    invariant
                        self@ == (ChooserView { scroll_dirty: false, ..old(self)@ }),
                        old(self)@.wf(),
                        old(self)@.scroll_dirty,
                        old(self)@.selected == Some(i),
                        n == self.visible_entries.len(),
                        k <= n,
                        visible_position(self.visible_entries@.take(k as int), i) is None,
                    decreases n - k,
                {
                    assert(self.visible_entries@.take(k + 1).drop_last() =~= self.visible_entries@.take(k as int));
                    if self.visible_entries[k] == i {
                        proof {
                            lemma_visible_position_prefix(self.visible_entries@, i, k + 1);
                        }
                        return ScrollRequest::ToRow(k);
                    }
                    k = k + 1;
                }
                assert(self.visible_entries@.take(n as int) =~= self.visible_entries@);
                ScrollRequest::ToTop
            },
            None => ScrollRequest::ToTop,
        }
    }
}

proof fn lemma_visible_position_prefix(visible: Seq<usize>, i: usize, n: int)
    requires
        0 <= n <= visible.len(),
        visible_position(visible.take(n), i) is Some,
    ensures
        visible_position(visible, i) == visible_position(visible.take(n), i),
    decreases visible.len() - n,
{
    if n < visible.len() {
        assert(visible.take(n + 1).drop_last() =~= visible.take(n));
        lemma_visible_position_prefix(visible, i, n + 1);
    } else {
        assert(visible.take(n) =~= visible);
    }
}


/// The visible list depends only on the entries, the search term, the
/// filters and whether hidden entries are shown.
proof fn lemma_visible_upto_same(v1: ChooserView, v2: ChooserView, n: int)
    requires
        v1.entries == v2.entries,
        v1.show_hidden == v2.show_hidden,
        v1.search_term == v2.search_term,
        v1.filters == v2.filters,
        v1.active_filter_idx == v2.active_filter_idx,
    ensures
        visible_upto(v1, n) == visible_upto(v2, n),
    decreases n,
{
    if n > 0 {
        lemma_visible_upto_same(v1, v2, n - 1);
    }
}


/// Sorting by name, ascending.
pub open spec fn name_sort_specs() -> Seq<SortSpec> {
    seq![SortSpec { column: 1, direction: SortDirection::Ascending }]
}

/// The directories of a listing that the path popup offers: directories,
/// and among them hidden ones only when hidden entries are shown.
pub open spec fn popup_candidates(show_hidden: bool, listing: Seq<EntryView>) -> Seq<EntryView>
    decreases listing.len(),
{
    if listing.len() == 0 {
        Seq::empty()
    } else {
        let d = listing.last();
        popup_candidates(show_hidden, listing.drop_last()) + if d.kind == FileEntryKind::Directory
            && !(d.hidden && !show_hidden) {
            seq![d]
        } else {
            Seq::empty()
        }
    }
}

/// The popup line for directory `d` of `parent`, marked when it is `my_path`.
pub open spec fn popup_line(parent: Seq<char>, my_path: Seq<char>, d: EntryView) -> (Seq<char>, bool) {
    (path_join(parent, d.name), paths_equal(path_join(parent, d.name), my_path))
}

/// The popup line for root `d`, marked when it is `my_path`.
pub open spec fn popup_root_line(my_path: Seq<char>, d: EntryView) -> (Seq<char>, bool) {
    (d.name, paths_equal(d.name, my_path))
}

fn name_specs() -> (r: Vec<SortSpec>)
    ensures
        r@ == name_sort_specs(),
{
    let r = vec![SortSpec { column: 1, direction: SortDirection::Ascending }];
    assert(r@ =~= name_sort_specs());
    r
}

impl FileChooser {
    /// The directory whose subdirectories the popup of path component
    /// `my_path` offers, or `None` when it offers the roots.
    pub fn popup_parent(&self, my_path: &str) -> (r: Option<String>)
        ensures
            self@.wf(),
            match r {
                Some(p) => path_parent(my_path@) == Some(p@),
                None => path_parent(my_path@) is None,
            },
    {
        proof {
            use_type_invariant(&*self);
        }
        parent_of(my_path)
    }

    /// Fills the path popup of component `my_path` with the subdirectories
    /// of `parent` (its parent), sorted by name, the current one marked.
    /// Returns whether there is anything to show.
    pub fn set_popup_dirs(&mut self, my_path: &str, parent: &str, listing: Vec<FileEntry>) -> (r: bool)
        ensures
            old(self)@.wf(),
            exists|sorted: Seq<EntryView>|
                {
                    &&& is_stable_sort(name_sort_specs(), popup_candidates(old(self)@.show_hidden, views(listing@)), sorted)
                    &&& final(self)@ == (ChooserView {
                        popup_dirs: sorted.map_values(|d: EntryView| popup_line(parent@, my_path@, d)),
                        ..old(self)@
                    })
                },
            r == (final(self)@.popup_dirs.len() > 0),
    {
        proof {
            use_type_invariant(&*self);
        }
        let ghost lv = views(listing@);
        let mut cands: Vec<FileEntry> = Vec::new();
        let mut listing = listing;
        let ghost mut taken: int = 0;
        assert(lv.take(0) =~= Seq::<EntryView>::empty());
        while listing.len() > 0
            invariant
                0 <= taken <= lv.len(),
                views(listing@) == lv.skip(taken),
                views(cands@) == popup_candidates(self.show_hidden, lv.take(taken)),
                *self == *old(self),
            decreases listing.len(),
        {
            let ghost before = listing@;
            assert(views(before).len() == before.len());
            assert(lv.skip(taken).len() > 0);
            assert(views(before)[0] == lv.skip(taken)[0]);
            let d = listing.remove(0);
            assert(views(listing@) =~= views(before).drop_first());
            assert(lv.skip(taken).drop_first() =~= lv.skip(taken + 1));
            assert(lv.take(taken + 1).drop_last() =~= lv.take(taken));
            assert(d@ == lv[taken]);
            if d.kind == FileEntryKind::Directory && !(d.hidden && !self.show_hidden) {
                let ghost cb = views(cands@);
                cands.push(d);
                assert(views(cands@) =~= cb.push(lv[taken]));
            }
            proof {
                taken = taken + 1;
            }
            assert(views(cands@) =~= popup_candidates(self.show_hidden, lv.take(taken)));
        }
        assert(lv.take(taken) =~= lv);
        let specs = name_specs();
        let sorted = stable_sort_entries(cands, &specs);
        let ghost sv = views(sorted@);
        let mut dirs: Vec<(String, bool)> = Vec::new();
        let mut i: usize = 0;
        while i < sorted.len()
            invariant
                sv == views(sorted@),
                i <= sorted.len(),
                dir_pair_views(dirs@) == sv.take(i as int).map_values(|d: EntryView| popup_line(parent@, my_path@, d)),
            decreases sorted.len() - i,
        {
            assert(sv[i as int] == sorted@[i as int]@);
            let full = join(parent, sorted[i].name.as_str());
            let sel = same_path(full.as_str(), my_path);
            let ghost db = dir_pair_views(dirs@);
            dirs.push((full, sel));
            assert(dir_pair_views(dirs@) =~= db.push(popup_line(parent@, my_path@, sv[i as int])));
            assert(sv.take(i + 1).map_values(|d: EntryView| popup_line(parent@, my_path@, d)) =~= sv.take(i as int).map_values(|d: EntryView| popup_line(parent@, my_path@, d)).push(popup_line(parent@, my_path@, sv[i as int])));
            i = i + 1;
        }
        assert(sv.take(i as int) =~= sv);
        let nonempty = dirs.len() > 0;
        self.popup_dirs = dirs;
        assert(is_stable_sort(name_sort_specs(), popup_candidates(old(self)@.show_hidden, lv), sv));
        assert(self@ == (ChooserView {
            popup_dirs: sv.map_values(|d: EntryView| popup_line(parent@, my_path@, d)),
            ..old(self)@
        }));
        nonempty
    }

    /// Fills the path popup of component `my_path` (which has no parent)
    /// with the roots, sorted by name, the current one marked. Returns
    /// whether there is anything to show.
    pub fn set_popup_roots(&mut self, my_path: &str, roots: Vec<FileEntry>) -> (r: bool)
        ensures
            old(self)@.wf(),
            exists|sorted: Seq<EntryView>|
                {
                    &&& is_stable_sort(name_sort_specs(), views(roots@), sorted)
                    &&& final(self)@ == (ChooserView {
                        popup_dirs: sorted.map_values(|d: EntryView| popup_root_line(my_path@, d)),
                        ..old(self)@
                    })
                },
            r == (final(self)@.popup_dirs.len() > 0),
    {
        proof {
            use_type_invariant(&*self);
        }
        let specs = name_specs();
        let sorted = stable_sort_entries(roots, &specs);
        let ghost sv = views(sorted@);
        let mut dirs: Vec<(String, bool)> = Vec::new();
        let mut i: usize = 0;
        while i < sorted.len()
            invariant
                sv == views(sorted@),
                i <= sorted.len(),
                dir_pair_views(dirs@) == sv.take(i as int).map_values(|d: EntryView| popup_root_line(my_path@, d)),
            decreases sorted.len() - i,
        {
            assert(sv[i as int] == sorted@[i as int]@);
            let name = sorted[i].name.clone();
            let sel = same_path(name.as_str(), my_path);
            let ghost db = dir_pair_views(dirs@);
            dirs.push((name, sel));
            assert(dir_pair_views(dirs@) =~= db.push(popup_root_line(my_path@, sv[i as int])));
            assert(sv.take(i + 1).map_values(|d: EntryView| popup_root_line(my_path@, d)) =~= sv.take(i as int).map_values(|d: EntryView| popup_root_line(my_path@, d)).push(popup_root_line(my_path@, sv[i as int])));
            i = i + 1;
        }
        assert(sv.take(i as int) =~= sv);
        let nonempty = dirs.len() > 0;
        self.popup_dirs = dirs;
        nonempty
    }
}

} // verus!

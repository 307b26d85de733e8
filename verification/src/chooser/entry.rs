//! Directory entries and the order in which the file chooser lists them.
use vstd::prelude::*;
use vstd::string::*;
use crate::text::{Order, int_order, lex_order, lemma_lex_flip, lemma_lex_trans, lemma_lex_less, chars_of, lex_compare};

verus! {

/// Kind of entry in the filesystem.
///
/// It affects the icon and behavior. Kinds are ordered as declared.
#[derive(Clone, Copy, PartialEq, Eq, Structural, Debug)]
pub enum FileEntryKind {
    /// Used for the `..` present in most directories.
    Parent,
    /// It is a directory, not a file.
    Directory,
    /// It is a regular file.
    File,
    /// Entry from the list of roots of the filesystem.
    Root,
}

impl FileEntryKind {
    /// Position of the kind in the declared order.
    pub open spec fn rank(self) -> int {
        match self {
            FileEntryKind::Parent => 0,
            FileEntryKind::Directory => 1,
            FileEntryKind::File => 2,
            FileEntryKind::Root => 3,
        }
    }

    fn rank_exec(self) -> (r: u8)
        ensures
            r == self.rank(),
    {
        match self {
            FileEntryKind::Parent => 0,
            FileEntryKind::Directory => 1,
            FileEntryKind::File => 2,
            FileEntryKind::Root => 3,
        }
    }
}

/// An entry in a directory.
#[derive(Debug)]
pub struct FileEntry {
    /// The name of the entry.
    pub name: String,
    /// The type of entry.
    pub kind: FileEntryKind,
    /// The size of the entry in bytes, if known.
    pub size: Option<u64>,
    /// The last modified time of the entry, in nanoseconds since the Unix
    /// epoch, if known.
    pub modified: Option<i128>,
    /// Whether this entry is considered hidden.
    pub hidden: bool,
}

/// The mathematical value of a [`FileEntry`].
pub struct EntryView {
    pub name: Seq<char>,
    pub kind: FileEntryKind,
    pub size: Option<u64>,
    pub modified: Option<i128>,
    pub hidden: bool,
}

impl View for FileEntry {
    type V = EntryView;

    open spec fn view(&self) -> EntryView {
        EntryView {
            name: self.name@,
            kind: self.kind,
            size: self.size,
            modified: self.modified,
            hidden: self.hidden,
        }
    }
}

/// What the filesystem reports of an entry.
#[derive(Clone, Copy, PartialEq, Eq, Structural, Debug)]
pub struct EntryMetadata {
    /// It is a directory.
    pub is_dir: bool,
    /// Its size in bytes.
    pub len: u64,
    /// Its last modification time, in nanoseconds since the Unix epoch, if
    /// the system reports it.
    pub modified: Option<i128>,
    /// Its attribute bits, on systems that have them (zero elsewhere).
    pub attributes: u32,
}

/// The attribute bit of a hidden file.
pub const FILE_ATTRIBUTE_HIDDEN: u32 = 2;

/// The name begins with a dot.
pub open spec fn starts_with_dot(name: Seq<char>) -> bool {
    name.len() > 0 && name[0] == '.'
}

impl FileEntry {
    /// The entry named `name` with the metadata that the filesystem
    /// reported, if it could be read.
    ///
    /// An entry whose metadata cannot be read is taken for a file of unknown
    /// size. Where `attributes_hide` holds (the system marks hidden entries
    /// with an attribute bit), the entry is hidden if that bit is set;
    /// elsewhere it is hidden if its name begins with a dot.
    pub fn from_metadata(name: String, meta: Option<EntryMetadata>, attributes_hide: bool) -> (r: FileEntry)
        ensures
            r@.name == name@,
            r@.kind == match meta {
                Some(m) => if m.is_dir {
                    FileEntryKind::Directory
                } else {
                    FileEntryKind::File
                },
                None => FileEntryKind::File,
            },
            r@.size == match meta {
                Some(m) => if m.is_dir {
                    None
                } else {
                    Some(m.len)
                },
                None => None,
            },
            r@.modified == match meta {
                Some(m) => m.modified,
                None => None,
            },
            r@.hidden == if attributes_hide {
                match meta {
                    Some(m) => m.attributes & FILE_ATTRIBUTE_HIDDEN != 0,
                    None => false,
                }
            } else {
                starts_with_dot(name@)
            },
    {
        let (kind, size, modified) = match meta {
            Some(m) => if m.is_dir {
                (FileEntryKind::Directory, None, m.modified)
            } else {
                (FileEntryKind::File, Some(m.len), m.modified)
            },
            None => (FileEntryKind::File, None, None),
        };
        let hidden = if attributes_hide {
            match meta {
                Some(m) => m.attributes & FILE_ATTRIBUTE_HIDDEN != 0,
                None => false,
            }
        } else {
            let s = name.as_str();
            s.unicode_len() > 0 && s.get_char(0) == '.'
        };
        FileEntry { name, kind, size, modified, hidden }
    }

    /// The `..` entry that leads to the parent directory.
    pub fn dot_dot() -> (r: FileEntry)
        ensures
            r@.name == seq!['.', '.'],
            r@.kind == FileEntryKind::Parent,
            r@.size is None,
            r@.modified is None,
            !r@.hidden,
    {
        let name = String::from_str("..");
        proof {
            reveal_strlit("..");
        }
        FileEntry { name, kind: FileEntryKind::Parent, size: None, modified: None, hidden: false }
    }
}

/// Direction of sorting of a table column.
#[derive(Clone, Copy, PartialEq, Eq, Structural, Debug)]
pub enum SortDirection {
    /// The column is not sorted.
    Unsorted,
    Ascending,
    Descending,
}

/// One sorting criterion: a column of the table and its direction.
///
/// Columns are 0: kind, 1: name, 2: size, 3: modification time; other
/// columns are ignored.
#[derive(Clone, Copy, PartialEq, Eq, Structural, Debug)]
pub struct SortSpec {
    pub column: usize,
    pub direction: SortDirection,
}

/// Rank of an optional value, with "unknown" before every known value.
pub open spec fn option_rank_u64(o: Option<u64>) -> int {
    match o {
        Some(v) => v as int,
        None => -1,
    }
}

/// Rank of an optional value, with "unknown" before every known value.
pub open spec fn option_rank_i128(o: Option<i128>) -> int {
    match o {
        Some(v) => v as int,
        None => i128::MIN - 1,
    }
}

/// Comparison of two entries by one column, if the column is known.
pub open spec fn column_order(column: usize, a: EntryView, b: EntryView) -> Option<Order> {
    if column == 0 {
        Some(int_order(a.kind.rank(), b.kind.rank()))
    } else if column == 1 {
        Some(lex_order(a.name, b.name))
    } else if column == 2 {
        Some(int_order(option_rank_u64(a.size), option_rank_u64(b.size)))
    } else if column == 3 {
        Some(int_order(option_rank_i128(a.modified), option_rank_i128(b.modified)))
    } else {
        None
    }
}

/// Comparison of two entries by a list of criteria: the first criterion
/// that tells them apart decides.
pub open spec fn order_by_specs(specs: Seq<SortSpec>, a: EntryView, b: EntryView) -> Order
    decreases specs.len(),
{
    if specs.len() == 0 {
        Order::Equal
    } else {
        let rest = order_by_specs(specs.drop_first(), a, b);
        match column_order(specs[0].column, a, b) {
            None => rest,
            Some(o) => match specs[0].direction {
                SortDirection::Ascending => if o != Order::Equal {
                    o
                } else {
                    rest
                },
                SortDirection::Descending => if o != Order::Equal {
                    o.flipped()
                } else {
                    rest
                },
                SortDirection::Unsorted => rest,
            },
        }
    }
}

/// The order of the listing: `..` always goes first, whatever the criteria;
/// other entries go by the criteria.
pub open spec fn entry_order(specs: Seq<SortSpec>, a: EntryView, b: EntryView) -> Order {
    if a.kind == FileEntryKind::Parent && b.kind == FileEntryKind::Parent {
        Order::Equal
    } else if a.kind == FileEntryKind::Parent {
        Order::Less
    } else if b.kind == FileEntryKind::Parent {
        Order::Greater
    } else {
        order_by_specs(specs, a, b)
    }
}

proof fn lemma_column_props(column: usize, a: EntryView, b: EntryView, c: EntryView)
    ensures
        column_order(column, a, b) is Some ==> column_order(column, b, a) == Some(
            column_order(column, a, b)->0.flipped(),
        ),
        column_order(column, a, b) is Some ==> column_order(column, a, c) is Some,
        column_order(column, a, b) is None ==> column_order(column, a, c) is None,
        column_order(column, a, b) is Some ==> ({
            let x = column_order(column, a, b)->0;
            let y = column_order(column, b, c)->0;
            let z = column_order(column, a, c)->0;
            &&& (x == Order::Less && y != Order::Greater ==> z == Order::Less)
            &&& (x != Order::Greater && y == Order::Less ==> z == Order::Less)
            &&& (x == Order::Equal && y == Order::Equal ==> z == Order::Equal)
            &&& (x == Order::Greater && y != Order::Less ==> z == Order::Greater)
            &&& (x != Order::Less && y == Order::Greater ==> z == Order::Greater)
        }),
{
    lemma_lex_flip(a.name, b.name);
    lemma_lex_trans(a.name, b.name, c.name);
    lemma_lex_trans(c.name, b.name, a.name);
    lemma_lex_flip(a.name, c.name);
    lemma_lex_flip(b.name, c.name);
}

/// Comparing by criteria in the other direction gives the flipped result.
pub proof fn lemma_order_by_specs_flip(specs: Seq<SortSpec>, a: EntryView, b: EntryView)
    ensures
        order_by_specs(specs, b, a) == order_by_specs(specs, a, b).flipped(),
    decreases specs.len(),
{
    if specs.len() > 0 {
        lemma_order_by_specs_flip(specs.drop_first(), a, b);
        lemma_column_props(specs[0].column, a, b, a);
    }
}

/// The order by criteria is transitive, strictly where one step is strict.
pub proof fn lemma_order_by_specs_trans(
    specs: Seq<SortSpec>,
    a: EntryView,
    b: EntryView,
    c: EntryView,
)
    ensures
        ({
            let x = order_by_specs(specs, a, b);
            let y = order_by_specs(specs, b, c);
            let z = order_by_specs(specs, a, c);
            &&& (x == Order::Less && y != Order::Greater ==> z == Order::Less)
            &&& (x != Order::Greater && y == Order::Less ==> z == Order::Less)
            &&& (x == Order::Equal && y == Order::Equal ==> z == Order::Equal)
        }),
    decreases specs.len(),
{
    if specs.len() > 0 {
        lemma_order_by_specs_trans(specs.drop_first(), a, b, c);
        lemma_column_props(specs[0].column, a, b, c);
        lemma_column_props(specs[0].column, b, c, a);
    }
}

/// The listing order is antisymmetric: comparing the other way round gives
/// the flipped result.
pub proof fn lemma_entry_order_flip(specs: Seq<SortSpec>, a: EntryView, b: EntryView)
    ensures
        entry_order(specs, b, a) == entry_order(specs, a, b).flipped(),
{
    lemma_order_by_specs_flip(specs, a, b);
}

/// The listing order is transitive.
pub proof fn lemma_entry_order_trans(specs: Seq<SortSpec>, a: EntryView, b: EntryView, c: EntryView)
    ensures
        entry_order(specs, a, b) != Order::Greater && entry_order(specs, b, c) != Order::Greater
            ==> entry_order(specs, a, c) != Order::Greater,
{
    lemma_order_by_specs_trans(specs, a, b, c);
}

/// When the first criterion is the size column, it decides between two
/// entries (neither of them `..`) of different sizes: ascending, the smaller
/// known size comes first and an unknown size before every known one;
/// descending, the other way round. Equal sizes, or an unsorted column,
/// leave the decision to the next criteria.
pub proof fn lemma_size_column_decides(specs: Seq<SortSpec>, a: EntryView, b: EntryView)
    requires
        specs.len() > 0,
        specs[0].column == 2,
        a.kind != FileEntryKind::Parent,
        b.kind != FileEntryKind::Parent,
    ensures
        ({
            let smaller = (a.size is None && b.size is Some) || (a.size is Some && b.size is Some
                && a.size->0 < b.size->0);
            &&& specs[0].direction == SortDirection::Ascending && smaller ==> entry_order(specs, a, b)
                == Order::Less
            &&& specs[0].direction == SortDirection::Descending && smaller ==> entry_order(specs, a, b)
                == Order::Greater
        }),
        a.size == b.size || specs[0].direction == SortDirection::Unsorted ==> entry_order(specs, a, b)
            == entry_order(specs.drop_first(), a, b),
{
}

/// When the first criterion is the modification time column, it decides
/// between two entries (neither of them `..`) of different times:
/// ascending, the earlier known time comes first and an unknown time before
/// every known one; descending, the other way round. Equal times, or an
/// unsorted column, leave the decision to the next criteria.
pub proof fn lemma_modified_column_decides(specs: Seq<SortSpec>, a: EntryView, b: EntryView)
    requires
        specs.len() > 0,
        specs[0].column == 3,
        a.kind != FileEntryKind::Parent,
        b.kind != FileEntryKind::Parent,
    ensures
        ({
            let earlier = (a.modified is None && b.modified is Some) || (a.modified is Some
                && b.modified is Some && a.modified->0 < b.modified->0);
            &&& specs[0].direction == SortDirection::Ascending && earlier ==> entry_order(specs, a, b)
                == Order::Less
            &&& specs[0].direction == SortDirection::Descending && earlier ==> entry_order(specs, a, b)
                == Order::Greater
        }),
        a.modified == b.modified || specs[0].direction == SortDirection::Unsorted ==> entry_order(
            specs,
            a,
            b,
        ) == entry_order(specs.drop_first(), a, b),
{
}

/// When the first criterion is the kind column, ascending, directories come
/// before files and files before roots (and descending the other way
/// round); entries of one kind leave the decision to the next criteria.
pub proof fn lemma_kind_column_decides(specs: Seq<SortSpec>, a: EntryView, b: EntryView)
    requires
        specs.len() > 0,
        specs[0].column == 0,
        a.kind != FileEntryKind::Parent,
        b.kind != FileEntryKind::Parent,
    ensures
        ({
            let before = (a.kind == FileEntryKind::Directory && b.kind != FileEntryKind::Directory)
                || (a.kind == FileEntryKind::File && b.kind == FileEntryKind::Root);
            &&& specs[0].direction == SortDirection::Ascending && before ==> entry_order(specs, a, b)
                == Order::Less
            &&& specs[0].direction == SortDirection::Descending && before ==> entry_order(specs, a, b)
                == Order::Greater
        }),
        a.kind == b.kind || specs[0].direction == SortDirection::Unsorted ==> entry_order(specs, a, b)
            == entry_order(specs.drop_first(), a, b),
{
}

/// When the first criterion is the name column, ascending, a name comes
/// before the longer names it begins, and before a name that agrees with it
/// up to a position where its character is the smaller (descending, the
/// other way round); equal names leave the decision to the next criteria.
pub proof fn lemma_name_column_decides(specs: Seq<SortSpec>, a: EntryView, b: EntryView, i: int)
    requires
        specs.len() > 0,
        specs[0].column == 1,
        a.kind != FileEntryKind::Parent,
        b.kind != FileEntryKind::Parent,
    ensures
        ({
            let before = 0 <= i <= a.name.len() && i <= b.name.len() && a.name.take(i) == b.name.take(i)
                && ((i == a.name.len() && i < b.name.len()) || (i < a.name.len() && i < b.name.len()
                && a.name[i] < b.name[i]));
            &&& specs[0].direction == SortDirection::Ascending && before ==> entry_order(specs, a, b)
                == Order::Less
            &&& specs[0].direction == SortDirection::Descending && before ==> entry_order(specs, a, b)
                == Order::Greater
        }),
        a.name == b.name || specs[0].direction == SortDirection::Unsorted ==> entry_order(specs, a, b)
            == entry_order(specs.drop_first(), a, b),
{
    if 0 <= i <= a.name.len() && i <= b.name.len() && a.name.take(i) == b.name.take(i) && ((i
        == a.name.len() && i < b.name.len()) || (i < a.name.len() && i < b.name.len() && a.name[i]
        < b.name[i])) {
        lemma_lex_less(a.name, b.name, i);
    }
    if a.name == b.name {
        crate::text::lemma_lex_equal(a.name, b.name);
    }
}

fn column_compare(column: usize, a: &FileEntry, b: &FileEntry) -> (r: Option<Order>)
    ensures
        r == column_order(column, a@, b@),
{
    if column == 0 {
        let x = a.kind.rank_exec();
        let y = b.kind.rank_exec();
        Some(
            if x < y {
                Order::Less
            } else if x == y {
                Order::Equal
            } else {
                Order::Greater
            },
        )
    } else if column == 1 {
        let x = chars_of(a.name.as_str());
        let y = chars_of(b.name.as_str());
        Some(lex_compare(&x, &y))
    } else if column == 2 {
        Some(
            match (a.size, b.size) {
                (None, None) => Order::Equal,
                (None, Some(_)) => Order::Less,
                (Some(_), None) => Order::Greater,
                (Some(x), Some(y)) => if x < y {
                    Order::Less
                } else if x == y {
                    Order::Equal
                } else {
                    Order::Greater
                },
            },
        )
    } else if column == 3 {
        Some(
            match (a.modified, b.modified) {
                (None, None) => Order::Equal,
                (None, Some(_)) => Order::Less,
                (Some(_), None) => Order::Greater,
                (Some(x), Some(y)) => if x < y {
                    Order::Less
                } else if x == y {
                    Order::Equal
                } else {
                    Order::Greater
                },
            },
        )
    } else {
        None
    }
}

/// Compares two entries by the sorting criteria, with `..` always first.
pub fn compare_entries(specs: &Vec<SortSpec>, a: &FileEntry, b: &FileEntry) -> (r: Order)
    ensures
        r == entry_order(specs@, a@, b@),
{
    let a_parent = a.kind == FileEntryKind::Parent;
    let b_parent = b.kind == FileEntryKind::Parent;
    if a_parent && b_parent {
        return Order::Equal;
    } else if a_parent {
        return Order::Less;
    } else if b_parent {
        return Order::Greater;
    }
    let mut i: usize = 0;
    assert(specs@.skip(0) =~= specs@);
    while i < specs.len()
        invariant
            i <= specs.len(),
            entry_order(specs@, a@, b@) == order_by_specs(specs@, a@, b@),
            order_by_specs(specs@, a@, b@) == order_by_specs(specs@.skip(i as int), a@, b@),
        decreases specs.len() - i,
    {
        let ghost tail = specs@.skip(i as int);
        assert(tail.drop_first() =~= specs@.skip(i + 1));
        assert(tail[0] == specs@[i as int]);
        let s = specs[i];
        i = i + 1;
        let res = match column_compare(s.column, a, b) {
            Some(o) => o,
            None => continue,
        };
        let res = match s.direction {
            SortDirection::Ascending => res,
            SortDirection::Descending => res.reverse(),
            SortDirection::Unsorted => continue,
        };
        if res != Order::Equal {
            assert(order_by_specs(tail, a@, b@) == res);
            return res;
        }
    }
    Order::Equal
}

} // verus!

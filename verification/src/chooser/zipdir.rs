//! The members of a ZIP archive, browsed as a tree of directories.
//!
//! A tree maps each path, as a sequence of components, to what the path
//! holds. Adding a file makes every path above it a directory, and
//! replaces whatever stood at its own path, with all that was below it.
use vstd::prelude::*;
use vstd::string::*;
use crate::text::{Order, lex_order, lex_compare, chars_of, lemma_lex_equal, lemma_lex_flip, lemma_lex_trans};
use crate::chooser::entry::{FileEntry, FileEntryKind, EntryView};
use crate::chooser::sort::views;
use crate::chooser::paths::{pieces_view, path_components, path_pieces, path_is_relative, is_relative, path_join, join};

verus! {

/// One member of a ZIP archive, as listed in its central directory.
#[derive(Debug)]
pub struct ZipMember {
    /// The name of the member: a relative path, `/` between components.
    pub name: String,
    /// Whether the archive marks the member as a directory.
    pub is_dir: bool,
    /// The uncompressed size, in bytes.
    pub size: u64,
    /// The last modification time, in nanoseconds since the Unix epoch, if
    /// the archive holds a valid one.
    pub modified: Option<i128>,
}

/// The mathematical value of a [`ZipMember`].
pub struct ZipMemberView {
    pub name: Seq<char>,
    pub is_dir: bool,
    pub size: u64,
    pub modified: Option<i128>,
}

impl View for ZipMember {
    type V = ZipMemberView;

    open spec fn view(&self) -> ZipMemberView {
        ZipMemberView { name: self.name@, is_dir: self.is_dir, size: self.size, modified: self.modified }
    }
}

/// What a path of the tree holds.
#[derive(Clone, Copy, PartialEq, Eq, Structural, Debug)]
pub enum ZipNodeKind {
    Directory,
    File { size: u64, modified: Option<i128> },
}

/// `k` is `p` or one of the paths above it.
pub open spec fn is_prefix_of(k: Seq<Seq<char>>, p: Seq<Seq<char>>) -> bool {
    k.len() <= p.len() && p.take(k.len() as int) == k
}

/// `k` lies strictly below `p`.
pub open spec fn is_below(k: Seq<Seq<char>>, p: Seq<Seq<char>>) -> bool {
    p.len() < k.len() && k.take(p.len() as int) == p
}

/// The tree of an archive without members: the root directory alone.
pub open spec fn root_tree() -> Map<Seq<Seq<char>>, ZipNodeKind> {
    Map::empty().insert(Seq::empty(), ZipNodeKind::Directory)
}

/// Puts `kind` at path `p` of the tree `t`: the paths above `p` become
/// directories, and what lay below `p` goes away.
pub open spec fn tree_insert(t: Map<Seq<Seq<char>>, ZipNodeKind>, p: Seq<Seq<char>>, kind: ZipNodeKind) -> Map<
    Seq<Seq<char>>,
    ZipNodeKind,
> {
    Map::new(
        |k: Seq<Seq<char>>| is_prefix_of(k, p) || (t.contains_key(k) && !is_below(k, p)),
        |k: Seq<Seq<char>>|
            if k == p {
                kind
            } else if is_prefix_of(k, p) {
                ZipNodeKind::Directory
            } else {
                t[k]
            },
    )
}

/// The values of a sequence of members.
pub open spec fn member_views(s: Seq<ZipMember>) -> Seq<ZipMemberView> {
    s.map_values(|m: ZipMember| m@)
}

/// The tree of an archive whose members are listed in `members`: each
/// member that is not a directory is put, in turn, at the path its name
/// splits into.
pub open spec fn member_tree(members: Seq<ZipMemberView>) -> Map<Seq<Seq<char>>, ZipNodeKind>
    decreases members.len(),
{
    if members.len() == 0 {
        root_tree()
    } else {
        let t = member_tree(members.drop_last());
        let m = members.last();
        if m.is_dir {
            t
        } else {
            tree_insert(t, path_components(m.name), ZipNodeKind::File { size: m.size, modified: m.modified })
        }
    }
}

/// A tree is well formed: it holds the root, every path above one it holds,
/// and only directories have anything below them.
pub open spec fn tree_wf(t: Map<Seq<Seq<char>>, ZipNodeKind>) -> bool {
    &&& t.contains_key(Seq::empty())
    &&& forall|k: Seq<Seq<char>>, j: int|
        t.contains_key(k) && 0 <= j <= k.len() ==> #[trigger] t.contains_key(k.take(j))
    &&& forall|k: Seq<Seq<char>>|
        #[trigger] t.contains_key(k) && k.len() > 0 ==> t[k.drop_last()] == ZipNodeKind::Directory
}

struct ZipNode {
    path: Vec<String>,
    kind: ZipNodeKind,
}

spec fn node_key(n: ZipNode) -> Seq<Seq<char>> {
    pieces_view(n.path@)
}

spec fn has_key(nodes: Seq<ZipNode>, k: Seq<Seq<char>>) -> bool {
    exists|i: int| 0 <= i < nodes.len() && node_key(#[trigger] nodes[i]) == k
}

spec fn keys_distinct(nodes: Seq<ZipNode>) -> bool {
    forall|i: int, j: int|
        0 <= i < j < nodes.len() ==> node_key(#[trigger] nodes[i]) != node_key(#[trigger] nodes[j])
}

spec fn tree_of(nodes: Seq<ZipNode>) -> Map<Seq<Seq<char>>, ZipNodeKind> {
    Map::new(
        |k: Seq<Seq<char>>| has_key(nodes, k),
        |k: Seq<Seq<char>>| nodes[choose|i: int| 0 <= i < nodes.len() && node_key(#[trigger] nodes[i]) == k].kind,
    )
}

proof fn lemma_tree_of_at(nodes: Seq<ZipNode>, i: int)
    requires
        keys_distinct(nodes),
        0 <= i < nodes.len(),
    ensures
        tree_of(nodes).contains_key(node_key(nodes[i])),
        tree_of(nodes)[node_key(nodes[i])] == nodes[i].kind,
{
    let k = node_key(nodes[i]);
    assert(has_key(nodes, k));
    let j = choose|j: int| 0 <= j < nodes.len() && node_key(#[trigger] nodes[j]) == k;
    if j < i {
        assert(node_key(nodes[j]) != node_key(nodes[i]));
    } else if i < j {
        assert(node_key(nodes[i]) != node_key(nodes[j]));
    }
}

/// The directory tree of a ZIP archive.
pub struct ZipDirEnum {
    nodes: Vec<ZipNode>,
}

impl View for ZipDirEnum {
    type V = Map<Seq<Seq<char>>, ZipNodeKind>;

    closed spec fn view(&self) -> Map<Seq<Seq<char>>, ZipNodeKind> {
        tree_of(self.nodes@)
    }
}

/// Whether the component sequences `a` and `b` are equal.
fn same_pieces(a: &Vec<String>, b: &Vec<String>) -> (r: bool)
    ensures
        r == (pieces_view(a@) == pieces_view(b@)),
{
    if a.len() != b.len() {
        assert(pieces_view(a@).len() != pieces_view(b@).len());
        return false;
    }
    let mut i: usize = 0;
    while i < a.len()
        invariant
            a.len() == b.len(),
            i <= a.len(),
            forall|k: int| 0 <= k < i ==> a@[k]@ == b@[k]@,
        decreases a.len() - i,
    {
        if a[i] != b[i] {
            assert(pieces_view(a@)[i as int] != pieces_view(b@)[i as int]);
            return false;
        }
        i = i + 1;
    }
    assert(pieces_view(a@) =~= pieces_view(b@));
    true
}

/// A copy of the components `v`.
fn copy_pieces(v: &Vec<String>) -> (r: Vec<String>)
    ensures
        r@ == v@,
{
    let mut r: Vec<String> = Vec::new();
    let mut i: usize = 0;
    while i < v.len()
        invariant
            i <= v.len(),
            r@ == v@.take(i as int),
        decreases v.len() - i,
    {
        r.push(v[i].clone());
        i = i + 1;
        assert(r@ =~= v@.take(i as int));
    }
    assert(v@.take(v.len() as int) =~= v@);
    r
}

/// Whether the components `p` begin the components `path`.
fn starts_with(path: &Vec<String>, p: &Vec<String>) -> (r: bool)
    ensures
        r == (p.len() <= path.len() && pieces_view(path@).take(p.len() as int) == pieces_view(p@)),
{
    if p.len() > path.len() {
        return false;
    }
    let mut i: usize = 0;
    while i < p.len()
        invariant
            p.len() <= path.len(),
            i <= p.len(),
            forall|k: int| 0 <= k < i ==> path@[k]@ == p@[k]@,
        decreases p.len() - i,
    {
        if path[i] != p[i] {
            assert(pieces_view(path@).take(p.len() as int)[i as int] != pieces_view(p@)[i as int]);
            return false;
        }
        i = i + 1;
    }
    assert(pieces_view(path@).take(p.len() as int) =~= pieces_view(p@));
    true
}

/// The tree `t` without what lies strictly below `p`.
spec fn tree_prune(t: Map<Seq<Seq<char>>, ZipNodeKind>, p: Seq<Seq<char>>) -> Map<Seq<Seq<char>>, ZipNodeKind> {
    Map::new(|k: Seq<Seq<char>>| t.contains_key(k) && !is_below(k, p), |k: Seq<Seq<char>>| t[k])
}

/// The tree `t` with the paths above `p` that are shorter than `n` made
/// directories.
spec fn dirs_above(t: Map<Seq<Seq<char>>, ZipNodeKind>, p: Seq<Seq<char>>, n: int) -> Map<
    Seq<Seq<char>>,
    ZipNodeKind,
> {
    Map::new(
        |k: Seq<Seq<char>>| (is_prefix_of(k, p) && k.len() < n) || t.contains_key(k),
        |k: Seq<Seq<char>>|
            if is_prefix_of(k, p) && k.len() < n {
                ZipNodeKind::Directory
            } else {
                t[k]
            },
    )
}

/// Why a path of the tree cannot be listed.
#[derive(Clone, Copy, PartialEq, Eq, Structural, Debug)]
pub enum ZipReadError {
    /// The tree holds nothing at the path.
    NotFound,
    /// The tree holds a file at the path.
    NotADirectory,
}

/// A component that a lookup skips: the root or the current directory.
pub open spec fn is_skipped_piece(c: Seq<char>) -> bool {
    c == seq!['/'] || c == seq!['.']
}

/// The components `s` without those that a lookup skips.
pub open spec fn without_skipped(s: Seq<Seq<char>>) -> Seq<Seq<char>>
    decreases s.len(),
{
    if s.len() == 0 {
        s
    } else {
        let r = without_skipped(s.drop_last());
        if is_skipped_piece(s.last()) {
            r
        } else {
            r.push(s.last())
        }
    }
}

/// The path of the tree that a lookup of the path text `p` reaches.
pub open spec fn lookup_key(p: Seq<char>) -> Seq<Seq<char>> {
    without_skipped(path_components(p))
}

/// `k` is a child of `q`: one component longer, and below it.
pub open spec fn is_child(k: Seq<Seq<char>>, q: Seq<Seq<char>>) -> bool {
    k.len() == q.len() + 1 && k.take(q.len() as int) == q
}

/// The listing entry of a child named `name` that holds `kind`.
pub open spec fn child_entry(name: Seq<char>, kind: ZipNodeKind) -> EntryView {
    match kind {
        ZipNodeKind::Directory => EntryView {
            name,
            kind: FileEntryKind::Directory,
            size: None,
            modified: None,
            hidden: false,
        },
        ZipNodeKind::File { size, modified } => EntryView {
            name,
            kind: FileEntryKind::File,
            size: Some(size),
            modified,
            hidden: false,
        },
    }
}

/// `r` lists the children of `q` in the tree `t`: each of them once, by
/// ascending name, and nothing else.
pub open spec fn lists_children(t: Map<Seq<Seq<char>>, ZipNodeKind>, q: Seq<Seq<char>>, r: Seq<EntryView>) -> bool {
    &&& forall|i: int, j: int|
        0 <= i < j < r.len() ==> lex_order(#[trigger] r[i].name, #[trigger] r[j].name) == Order::Less
    &&& forall|i: int|
        0 <= i < r.len() ==> t.contains_key(q.push(#[trigger] r[i].name)) && r[i] == child_entry(
            r[i].name,
            t[q.push(r[i].name)],
        )
    &&& forall|k: Seq<Seq<char>>|
        #[trigger] t.contains_key(k) && is_child(k, q) ==> exists|i: int|
            0 <= i < r.len() && #[trigger] r[i].name == k.last()
}

spec fn lists_name(r: Seq<FileEntry>, x: Seq<char>) -> bool {
    exists|a: int| 0 <= a < r.len() && (#[trigger] r[a])@.name == x
}

/// Whether `c` is a component that a lookup skips.
fn skipped_piece(c: &String) -> (r: bool)
    ensures
        r == is_skipped_piece(c@),
{
    let s = c.as_str();
    if s.unicode_len() != 1 {
        assert(c@.len() != 1);
        return false;
    }
    let ch = s.get_char(0);
    assert(c@ =~= seq![ch]);
    ch == '/' || ch == '.'
}

/// The components of the path text `p`, as a lookup uses them.
fn lookup_pieces(p: &str) -> (r: Vec<String>)
    ensures
        pieces_view(r@) == lookup_key(p@),
{
    let comps = path_pieces(p);
    let ghost cv = pieces_view(comps@);
    let mut r: Vec<String> = Vec::new();
    let mut i: usize = 0;
    assert(cv.take(0) =~= Seq::<Seq<char>>::empty());
    while i < comps.len()
        invariant
            cv == pieces_view(comps@),
            i <= comps.len(),
            pieces_view(r@) == without_skipped(cv.take(i as int)),
        decreases comps.len() - i,
    {
        assert(cv.take(i + 1).drop_last() =~= cv.take(i as int));
        if !skipped_piece(&comps[i]) {
            r.push(comps[i].clone());
            assert(pieces_view(r@) =~= without_skipped(cv.take(i + 1)));
        }
        i = i + 1;
    }
    assert(cv.take(comps.len() as int) =~= cv);
    r
}

/// Whether the text `a` goes before the characters `xs`.
fn name_before(a: &String, xs: &Vec<char>) -> (r: bool)
    ensures
        r == (lex_order(a@, xs@) == Order::Less),
{
    let ys = chars_of(a.as_str());
    lex_compare(&ys, xs) == Order::Less
}

impl ZipDirEnum {
    /// The nodes hold each path once.
    #[verifier::type_invariant]
    pub closed spec fn wf(self) -> bool {
        keys_distinct(self.nodes@)
    }

    /// The node that holds the path `key`, if any.
    fn find(&self, key: &Vec<String>) -> (r: Option<usize>)
        requires
            self.wf(),
        ensures
            match r {
                Some(i) => i < self.nodes.len() && node_key(self.nodes@[i as int]) == pieces_view(key@),
                None => !self@.contains_key(pieces_view(key@)),
            },
    {
        let mut i: usize = 0;
        while i < self.nodes.len()
            invariant
                i <= self.nodes.len(),
                forall|j: int| 0 <= j < i ==> node_key(#[trigger] self.nodes@[j]) != pieces_view(key@),
            decreases self.nodes.len() - i,
        {
            if same_pieces(&self.nodes[i].path, key) {
                return Some(i);
            }
            i = i + 1;
        }
        None
    }

    /// Puts `kind` at the path `key`, whatever was there.
    fn set_or_push(&mut self, key: Vec<String>, kind: ZipNodeKind)
        requires
            old(self).wf(),
        ensures
            final(self).wf(),
            final(self)@ == old(self)@.insert(pieces_view(key@), kind),
    {
        let ghost k = pieces_view(key@);
        let ghost before = self.nodes@;
        let found = self.find(&key);
        let mut nodes: Vec<ZipNode> = Vec::new();
        std::mem::swap(&mut nodes, &mut self.nodes);
        match found {
            Some(i) => {
                nodes.set(i, ZipNode { path: key, kind });
                let ghost after = nodes@;
                assert(after == before.update(i as int, after[i as int]));
                assert forall|a: int, b: int| 0 <= a < b < after.len() implies node_key(#[trigger] after[a])
                    != node_key(#[trigger] after[b]) by {
                    assert(node_key(after[a]) == node_key(before[a]));
                    assert(node_key(after[b]) == node_key(before[b]));
                }
                assert forall|x: Seq<Seq<char>>| has_key(after, x) == has_key(before, x) by {
                    if has_key(after, x) {
                        let j = choose|j: int| 0 <= j < after.len() && node_key(#[trigger] after[j]) == x;
                        assert(node_key(before[j]) == x);
                    }
                    if has_key(before, x) {
                        let j = choose|j: int| 0 <= j < before.len() && node_key(#[trigger] before[j]) == x;
                        assert(node_key(after[j]) == x);
                    }
                }
                assert forall|x: Seq<Seq<char>>| #[trigger] tree_of(after).contains_key(x) implies tree_of(
                    after,
                )[x] == tree_of(before).insert(k, kind)[x] by {
                    let j = choose|j: int| 0 <= j < after.len() && node_key(#[trigger] after[j]) == x;
                    lemma_tree_of_at(after, j);
                    lemma_tree_of_at(before, j);
                }
                assert(tree_of(after) =~= tree_of(before).insert(k, kind));
                self.nodes = nodes;
            },
            None => {
                nodes.push(ZipNode { path: key, kind });
                let ghost after = nodes@;
                let ghost n = before.len() as int;
                assert(after == before.push(after[n]));
                assert(!has_key(before, k));
                assert forall|a: int, b: int| 0 <= a < b < after.len() implies node_key(#[trigger] after[a])
                    != node_key(#[trigger] after[b]) by {
                    if b == n {
                        assert(node_key(after[a]) == node_key(before[a]));
                    } else {
                        assert(node_key(after[a]) == node_key(before[a]));
                        assert(node_key(after[b]) == node_key(before[b]));
                    }
                }
                assert forall|x: Seq<Seq<char>>| has_key(after, x) == (has_key(before, x) || x == k) by {
                    if has_key(after, x) {
                        let j = choose|j: int| 0 <= j < after.len() && node_key(#[trigger] after[j]) == x;
                        if j < n {
                            assert(node_key(before[j]) == x);
                        }
                    }
                    if has_key(before, x) {
                        let j = choose|j: int| 0 <= j < before.len() && node_key(#[trigger] before[j]) == x;
                        assert(node_key(after[j]) == x);
                    }
                    if x == k {
                        assert(node_key(after[n]) == x);
                    }
                }
                assert forall|x: Seq<Seq<char>>| #[trigger] tree_of(after).contains_key(x) implies tree_of(
                    after,
                )[x] == tree_of(before).insert(k, kind)[x] by {
                    let j = choose|j: int| 0 <= j < after.len() && node_key(#[trigger] after[j]) == x;
                    lemma_tree_of_at(after, j);
                    if j < n {
                        assert(node_key(before[j]) == x);
                        lemma_tree_of_at(before, j);
                    }
                }
                assert(tree_of(after) =~= tree_of(before).insert(k, kind));
                self.nodes = nodes;
            },
        }
    }

    /// Removes what lies strictly below the path `p`.
    fn prune_below(&mut self, p: &Vec<String>)
        requires
            old(self).wf(),
        ensures
            final(self).wf(),
            final(self)@ == tree_prune(old(self)@, pieces_view(p@)),
    {
        let ghost pv = pieces_view(p@);
        let ghost before = self.nodes@;
        let mut kept: Vec<ZipNode> = Vec::new();
        let ghost mut src: Seq<int> = Seq::empty();
        let mut i: usize = 0;
        while i < self.nodes.len()
            invariant
                self.nodes@ == before,
                keys_distinct(before),
                i <= before.len(),
                pv == pieces_view(p@),
                src.len() == kept.len(),
                forall|a: int|
                    0 <= a < kept.len() ==> 0 <= src[a] < i && node_key(#[trigger] kept@[a]) == node_key(
                        before[src[a]],
                    ) && kept@[a].kind == before[src[a]].kind && !is_below(node_key(kept@[a]), pv),
                forall|a: int, c: int| 0 <= a < c < kept.len() ==> #[trigger] src[a] < #[trigger] src[c],
                forall|b: int|
                    0 <= b < i && !is_below(node_key(#[trigger] before[b]), pv) ==> has_key(
                        kept@,
                        node_key(before[b]),
                    ),
            decreases before.len() - i,
        {
            let below = p.len() < self.nodes[i].path.len() && starts_with(&self.nodes[i].path, p);
            if !below {
                let ghost old_kept = kept@;
                let ghost old_src = src;
                let node = ZipNode { path: copy_pieces(&self.nodes[i].path), kind: self.nodes[i].kind };
                kept.push(node);
                proof {
                    src = src.push(i as int);
                    assert(kept@[old_kept.len() as int] == node);
                    assert forall|a: int, c: int| 0 <= a < c < kept.len() implies #[trigger] src[a]
                        < #[trigger] src[c] by {
                        assert(old_kept[a] == kept@[a]);
                        if c < old_kept.len() {
                            assert(old_src[a] < old_src[c]);
                        }
                    }
                    assert forall|b: int|
                        0 <= b <= i && !is_below(node_key(#[trigger] before[b]), pv) implies has_key(
                        kept@,
                        node_key(before[b]),
                    ) by {
                        if b < i {
                            let w = choose|w: int|
                                0 <= w < old_kept.len() && node_key(#[trigger] old_kept[w]) == node_key(
                                    before[b],
                                );
                            assert(kept@[w] == old_kept[w]);
                        } else {
                            assert(node_key(kept@[old_kept.len() as int]) == node_key(before[b]));
                        }
                    }
                }
            }
            i = i + 1;
        }
        assert forall|a: int, c: int| 0 <= a < c < kept.len() implies node_key(#[trigger] kept@[a])
            != node_key(#[trigger] kept@[c]) by {
            assert(src[a] < src[c]);
            assert(node_key(kept@[a]) == node_key(before[src[a]]));
            assert(node_key(kept@[c]) == node_key(before[src[c]]));
        }
        let ghost after = kept@;
        assert forall|x: Seq<Seq<char>>|
            has_key(after, x) == (has_key(before, x) && !is_below(x, pv)) by {
            if has_key(after, x) {
                let a = choose|a: int| 0 <= a < after.len() && node_key(#[trigger] after[a]) == x;
                assert(node_key(before[src[a]]) == x);
            }
            if has_key(before, x) && !is_below(x, pv) {
                let b = choose|b: int| 0 <= b < before.len() && node_key(#[trigger] before[b]) == x;
                assert(has_key(after, node_key(before[b])));
            }
        }
        assert forall|x: Seq<Seq<char>>| #[trigger] tree_of(after).contains_key(x) implies tree_of(after)[x]
            == tree_of(before)[x] by {
            let a = choose|a: int| 0 <= a < after.len() && node_key(#[trigger] after[a]) == x;
            lemma_tree_of_at(after, a);
            lemma_tree_of_at(before, src[a]);
        }
        assert(tree_of(after) =~= tree_prune(tree_of(before), pv));
        self.nodes = kept;
    }

    /// Puts `kind` at the path `pieces`, as [`tree_insert`] says.
    fn insert_at(&mut self, pieces: &Vec<String>, kind: ZipNodeKind)
        requires
            old(self).wf(),
        ensures
            final(self).wf(),
            final(self)@ == tree_insert(old(self)@, pieces_view(pieces@), kind),
    {
        let ghost t = self@;
        let ghost pv = pieces_view(pieces@);
        let mut prefix: Vec<String> = Vec::new();
        let mut i: usize = 0;
        assert(self@ =~= dirs_above(t, pv, 0));
        while i < pieces.len()
            invariant
                self.wf(),
                i <= pieces.len(),
                pv == pieces_view(pieces@),
                prefix@ == pieces@.take(i as int),
                self@ == dirs_above(t, pv, i as int),
            decreases pieces.len() - i,
        {
            let ghost k = pieces_view(prefix@);
            assert(k =~= pv.take(i as int));
            self.set_or_push(copy_pieces(&prefix), ZipNodeKind::Directory);
            assert forall|x: Seq<Seq<char>>| is_prefix_of(x, pv) && x.len() == i implies x == k by {}
            assert(self@ =~= dirs_above(t, pv, i + 1));
            prefix.push(pieces[i].clone());
            i = i + 1;
            assert(prefix@ =~= pieces@.take(i as int));
        }
        self.prune_below(pieces);
        self.set_or_push(copy_pieces(pieces), kind);
        let ghost n = pv.len() as int;
        let ghost got = tree_prune(dirs_above(t, pv, n), pv).insert(pv, kind);
        assert(self@ == got);
        assert forall|x: Seq<Seq<char>>| is_prefix_of(x, pv) && x.len() == n implies x == pv by {
            assert(pv.take(n) =~= pv);
        }
        assert forall|x: Seq<Seq<char>>| is_prefix_of(x, pv) && x.len() < n implies !is_below(x, pv) by {}
        assert forall|x: Seq<Seq<char>>| #[trigger] got.contains_key(x) == tree_insert(t, pv, kind).contains_key(x) by {
            assert(is_prefix_of(pv, pv)) by {
                assert(pv.take(n) =~= pv);
            }
        }
        assert(got =~= tree_insert(t, pv, kind));
    }

    /// Builds the tree of an archive from the list of its members.
    ///
    /// Members marked as directories are skipped: directories come from the
    /// paths of the files.
    pub fn new(members: &Vec<ZipMember>) -> (r: ZipDirEnum)
        ensures
            r.wf(),
            r@ == member_tree(member_views(members@)),
    {
        let mut nodes: Vec<ZipNode> = Vec::new();
        nodes.push(ZipNode { path: Vec::new(), kind: ZipNodeKind::Directory });
        let mut tree = ZipDirEnum { nodes };
        proof {
            let ns = tree.nodes@;
            assert(node_key(ns[0]) =~= Seq::<Seq<char>>::empty());
            assert forall|x: Seq<Seq<char>>| has_key(ns, x) == (x == Seq::<Seq<char>>::empty()) by {
                if x == Seq::<Seq<char>>::empty() {
                    assert(node_key(ns[0]) == x);
                }
            }
            lemma_tree_of_at(ns, 0);
            assert(tree@ =~= root_tree());
        }
        let ghost mv = member_views(members@);
        let mut i: usize = 0;
        while i < members.len()
            invariant
                tree.wf(),
                i <= members.len(),
                mv == member_views(members@),
                tree@ == member_tree(mv.take(i as int)),
            decreases members.len() - i,
        {
            let m = &members[i];
            if !m.is_dir {
                let pieces = path_pieces(m.name.as_str());
                tree.insert_at(&pieces, ZipNodeKind::File { size: m.size, modified: m.modified });
            }
            assert(mv.take(i + 1).drop_last() =~= mv.take(i as int));
            i = i + 1;
        }
        assert(mv.take(members.len() as int) =~= mv);
        tree
    }

    /// The entries of the directory at `q`, by ascending name.
    fn children(&self, q: &Vec<String>) -> (r: Vec<FileEntry>)
        requires
            self.wf(),
        ensures
            lists_children(self@, pieces_view(q@), views(r@)),
    {
        let ghost qv = pieces_view(q@);
        let ghost ns = self.nodes@;
        let mut r: Vec<FileEntry> = Vec::new();
        let ghost mut src: Seq<int> = Seq::empty();
        let mut j: usize = 0;
        while j < self.nodes.len()
            invariant
                self.wf(),
                ns == self.nodes@,
                qv == pieces_view(q@),
                j <= ns.len(),
                src.len() == r.len(),
                forall|a: int, b: int|
                    0 <= a < b < r.len() ==> lex_order(#[trigger] r@[a]@.name, #[trigger] r@[b]@.name)
                        == Order::Less,
                forall|a: int|
                    0 <= a < r.len() ==> 0 <= #[trigger] src[a] < j && node_key(ns[src[a]]) == qv.push(
                        r@[a]@.name,
                    ) && r@[a]@ == child_entry(r@[a]@.name, ns[src[a]].kind),
                forall|b: int|
                    0 <= b < j && is_child(node_key(#[trigger] ns[b]), qv) ==> lists_name(
                        r@,
                        node_key(ns[b]).last(),
                    ),
            decreases ns.len() - j,
        {
            let node = &self.nodes[j];
            if node.path.len() > q.len() && node.path.len() - 1 == q.len() && starts_with(&node.path, q) {
                let name = node.path[q.len()].clone();
                let ghost x = name@;
                proof {
                    assert(node_key(ns[j as int]) =~= qv.push(x));
                    assert forall|a: int| 0 <= a < r.len() implies r@[a]@.name != x by {
                        assert(src[a] < j);
                        if r@[a]@.name == x {
                            assert(node_key(ns[src[a]]) == node_key(ns[j as int]));
                        }
                    }
                }
                let xs = chars_of(name.as_str());
                let mut pos: usize = 0;
                while pos < r.len() && name_before(&r[pos].name, &xs)
                    invariant
                        xs@ == x,
                        pos <= r.len(),
                        forall|a: int| 0 <= a < pos ==> lex_order(#[trigger] r@[a]@.name, x) == Order::Less,
                    decreases r.len() - pos,
                {
                    pos = pos + 1;
                }
                let entry = match node.kind {
                    ZipNodeKind::Directory => FileEntry {
                        name,
                        kind: FileEntryKind::Directory,
                        size: None,
                        modified: None,
                        hidden: false,
                    },
                    ZipNodeKind::File { size, modified } => FileEntry {
                        name,
                        kind: FileEntryKind::File,
                        size: Some(size),
                        modified,
                        hidden: false,
                    },
                };
                let ghost old_r = r@;
                let ghost old_src = src;
                proof {
                    assert forall|b: int| pos <= b < old_r.len() implies lex_order(x, #[trigger] old_r[b]@.name)
                        == Order::Less by {
                        lemma_lex_equal(old_r[pos as int]@.name, x);
                        lemma_lex_flip(old_r[pos as int]@.name, x);
                        if b > pos {
                            lemma_lex_trans(x, old_r[pos as int]@.name, old_r[b]@.name);
                        }
                    }
                }
                r.insert(pos, entry);
                proof {
                    old_r.insert_ensures(pos as int, entry);
                    src = old_src.insert(pos as int, j as int);
                    old_src.insert_ensures(pos as int, j as int);
                    assert(r@[pos as int] == entry);
                    assert forall|a: int, b: int| 0 <= a < b < r.len() implies lex_order(
                        #[trigger] r@[a]@.name,
                        #[trigger] r@[b]@.name,
                    ) == Order::Less by {
                        if b < pos {
                            assert(r@[a] == old_r[a] && r@[b] == old_r[b]);
                        } else if b == pos {
                            assert(r@[a] == old_r[a]);
                        } else if a < pos {
                            assert(r@[a] == old_r[a] && r@[b] == old_r[b - 1]);
                            lemma_lex_trans(old_r[a]@.name, x, old_r[b - 1]@.name);
                        } else if a == pos {
                            assert(r@[b] == old_r[b - 1]);
                        } else {
                            assert(r@[a] == old_r[a - 1] && r@[b] == old_r[b - 1]);
                        }
                    }
                    assert forall|a: int| 0 <= a < r.len() implies 0 <= #[trigger] src[a] < j + 1 && node_key(
                        ns[src[a]],
                    ) == qv.push(r@[a]@.name) && r@[a]@ == child_entry(r@[a]@.name, ns[src[a]].kind) by {
                        if a < pos {
                            assert(r@[a] == old_r[a] && src[a] == old_src[a]);
                        } else if a > pos {
                            assert(r@[a] == old_r[a - 1] && src[a] == old_src[a - 1]);
                        }
                    }
                    assert forall|b: int| 0 <= b < j + 1 && is_child(node_key(#[trigger] ns[b]), qv) implies lists_name(
                        r@,
                        node_key(ns[b]).last(),
                    ) by {
                        if b < j {
                            let w = choose|w: int| 0 <= w < old_r.len() && (#[trigger] old_r[w])@.name == node_key(ns[b]).last();
                            if w < pos {
                                assert(r@[w] == old_r[w]);
                            } else {
                                assert(r@[w + 1] == old_r[w]);
                            }
                        } else {
                            assert(r@[pos as int]@.name == node_key(ns[b]).last());
                        }
                    }
                }
            } else {
                proof {
                    if is_child(node_key(ns[j as int]), qv) {
                        assert(node_key(ns[j as int]).len() == node.path.len());
                    }
                }
            }
            j = j + 1;
        }
        let ghost rv = views(r@);
        assert forall|i: int| 0 <= i < rv.len() implies self@.contains_key(qv.push(#[trigger] rv[i].name)) && rv[i]
            == child_entry(rv[i].name, self@[qv.push(rv[i].name)]) by {
            assert(rv[i] == r@[i]@);
            assert(node_key(ns[src[i]]) == qv.push(r@[i]@.name));
            lemma_tree_of_at(ns, src[i]);
        }
        assert forall|k: Seq<Seq<char>>| #[trigger] self@.contains_key(k) && is_child(k, qv) implies exists|i: int|
            0 <= i < rv.len() && #[trigger] rv[i].name == k.last() by {
            let b = choose|b: int| 0 <= b < ns.len() && node_key(#[trigger] ns[b]) == k;
            assert(lists_name(r@, node_key(ns[b]).last()));
            let w = choose|w: int| 0 <= w < r@.len() && (#[trigger] r@[w])@.name == k.last();
            assert(rv[w] == r@[w]@);
        }
        assert forall|a: int, b: int| 0 <= a < b < rv.len() implies lex_order(#[trigger] rv[a].name, #[trigger] rv[b].name)
            == Order::Less by {
            assert(rv[a] == r@[a]@ && rv[b] == r@[b]@);
        }
        r
    }

    /// Lists the directory at the path text `path`, by ascending name.
    ///
    /// Components `/` and `.` of the path are skipped. Fails with
    /// `NotFound` where the tree holds nothing at the path, and with
    /// `NotADirectory` where it holds a file.
    pub fn read_dir(&self, path: &str) -> (r: Result<Vec<FileEntry>, ZipReadError>)
        ensures
            ({
                let q = lookup_key(path@);
                match r {
                    Err(ZipReadError::NotFound) => !self@.contains_key(q),
                    Err(ZipReadError::NotADirectory) => self@.contains_key(q) && self@[q] is File,
                    Ok(v) => self@.contains_key(q) && self@[q] is Directory && lists_children(
                        self@,
                        q,
                        views(v@),
                    ),
                }
            }),
    {
        proof {
            use_type_invariant(self);
        }
        let q = lookup_pieces(path);
        match self.find(&q) {
            None => Err(ZipReadError::NotFound),
            Some(i) => {
                proof {
                    lemma_tree_of_at(self.nodes@, i as int);
                }
                match self.nodes[i].kind {
                    ZipNodeKind::File { .. } => Err(ZipReadError::NotADirectory),
                    ZipNodeKind::Directory => Ok(self.children(&q)),
                }
            },
        }
    }

    /// The roots of the archive: none, the tree has the single root `/`.
    pub fn roots(&self) -> (r: Vec<FileEntry>)
        ensures
            r@.len() == 0,
    {
        Vec::new()
    }

    /// The absolute form of the path text `path`: a relative path is taken
    /// from the root `/`.
    pub fn absolute(&self, path: &str) -> (r: String)
        ensures
            r@ == (if path_is_relative(path@) {
                path_join(seq!['/'], path@)
            } else {
                path@
            }),
    {
        if is_relative(path) {
            let root = "/";
            proof {
                reveal_strlit("/");
                assert(root@ =~= seq!['/']);
            }
            join(root, path)
        } else {
            path.to_owned()
        }
    }
}

/// The tree of an archive without members is well formed.
pub proof fn lemma_root_tree_wf()
    ensures
        tree_wf(root_tree()),
{
    let t = root_tree();
    assert forall|k: Seq<Seq<char>>, j: int| t.contains_key(k) && 0 <= j <= k.len() implies #[trigger] t.contains_key(
        k.take(j),
    ) by {
        assert(k.take(j) =~= Seq::<Seq<char>>::empty());
    }
}

/// Putting something at a path keeps a tree well formed.
pub proof fn lemma_insert_keeps_wf(t: Map<Seq<Seq<char>>, ZipNodeKind>, p: Seq<Seq<char>>, kind: ZipNodeKind)
    requires
        tree_wf(t),
    ensures
        tree_wf(tree_insert(t, p, kind)),
{
    let u = tree_insert(t, p, kind);
    let e = Seq::<Seq<char>>::empty();
    assert(p.take(0) =~= e);
    assert(u.contains_key(e));
    assert forall|k: Seq<Seq<char>>, j: int| u.contains_key(k) && 0 <= j <= k.len() implies #[trigger] u.contains_key(
        k.take(j),
    ) by {
        if is_prefix_of(k, p) {
            assert(k.take(j) =~= p.take(j));
        } else {
            assert(t.contains_key(k.take(j)));
            if is_below(k.take(j), p) {
                assert(k.take(j).take(p.len() as int) =~= k.take(p.len() as int));
                assert(is_below(k, p));
            }
        }
    }
    assert forall|k: Seq<Seq<char>>| #[trigger] u.contains_key(k) && k.len() > 0 implies u[k.drop_last()]
        == ZipNodeKind::Directory by {
        let par = k.drop_last();
        assert(par =~= k.take(k.len() - 1));
        assert(u.contains_key(k.take(k.len() - 1)));
        if is_prefix_of(k, p) {
            assert(par =~= p.take(par.len() as int));
            assert(par != p);
        } else {
            assert(t.contains_key(k));
            assert(t.contains_key(k.take(k.len() - 1)));
            if par == p {
                assert(k.take(p.len() as int) =~= p);
                assert(is_below(k, p));
            }
        }
    }
}

/// Every tree built from the members of an archive is well formed.
pub proof fn lemma_member_tree_wf(members: Seq<ZipMemberView>)
    ensures
        tree_wf(member_tree(members)),
    decreases members.len(),
{
    if members.len() == 0 {
        lemma_root_tree_wf();
    } else {
        lemma_member_tree_wf(members.drop_last());
        let m = members.last();
        if !m.is_dir {
            lemma_insert_keeps_wf(
                member_tree(members.drop_last()),
                path_components(m.name),
                ZipNodeKind::File { size: m.size, modified: m.modified },
            );
        }
    }
}

/// After something is put at a path, the path holds it, every path above it
/// is a directory, nothing lies below it, and every other path holds what
/// it held.
pub proof fn lemma_insert_reads_back(
    t: Map<Seq<Seq<char>>, ZipNodeKind>,
    p: Seq<Seq<char>>,
    kind: ZipNodeKind,
    k: Seq<Seq<char>>,
)
    ensures
        tree_insert(t, p, kind).contains_key(p),
        tree_insert(t, p, kind)[p] == kind,
        is_below(k, p) ==> !tree_insert(t, p, kind).contains_key(k),
        is_prefix_of(k, p) && k != p ==> tree_insert(t, p, kind).contains_key(k) && tree_insert(t, p, kind)[k]
            == ZipNodeKind::Directory,
        !is_prefix_of(k, p) && !is_below(k, p) ==> (tree_insert(t, p, kind).contains_key(k) == t.contains_key(k)
            && (t.contains_key(k) ==> tree_insert(t, p, kind)[k] == t[k])),
{
    assert(p.take(p.len() as int) =~= p);
    if is_below(k, p) && is_prefix_of(k, p) {
        assert(false);
    }
}

} // verus!

//! Stable sorting of directory listings.
use vstd::prelude::*;
use crate::text::Order;
use crate::chooser::entry::{
    FileEntry, FileEntryKind, EntryView, SortSpec, entry_order, compare_entries, lemma_entry_order_flip,
    lemma_entry_order_trans,
};

verus! {

/// The values of a sequence of entries.
pub open spec fn views(s: Seq<FileEntry>) -> Seq<EntryView> {
    s.map_values(|e: FileEntry| e@)
}

/// No entry of `s` goes after a later one in the listing order.
pub open spec fn sorted_by(specs: Seq<SortSpec>, s: Seq<EntryView>) -> bool {
    forall|i: int, j: int|
        0 <= i < j < s.len() ==> entry_order(specs, #[trigger] s[i], #[trigger] s[j])
            != Order::Greater
}

/// `output` holds `input[p[k]]` at each position `k`, with `p` a
/// permutation; `output` is sorted; and entries that compare equal keep
/// their relative order.
pub open spec fn stable_sort_witness(
    specs: Seq<SortSpec>,
    input: Seq<EntryView>,
    output: Seq<EntryView>,
    p: Seq<int>,
) -> bool {
    &&& p.len() == input.len()
    &&& output.len() == input.len()
    &&& forall|k: int| 0 <= k < output.len() ==> 0 <= #[trigger] p[k] < input.len()
    &&& forall|k: int| 0 <= k < output.len() ==> output[k] == input[#[trigger] p[k]]
    &&& forall|k: int, l: int| 0 <= k < l < output.len() ==> #[trigger] p[k] != #[trigger] p[l]
    &&& sorted_by(specs, output)
    &&& forall|k: int, l: int|
        0 <= k < l < output.len() && entry_order(specs, #[trigger] output[k], #[trigger] output[l])
            == Order::Equal ==> p[k] < p[l]
}

/// `output` is the stable sort of `input` by the listing order: a
/// rearrangement of it, as a witness permutation shows and as the
/// multisets of entries agree.
pub open spec fn is_stable_sort(specs: Seq<SortSpec>, input: Seq<EntryView>, output: Seq<EntryView>) -> bool {
    &&& exists|p: Seq<int>| stable_sort_witness(specs, input, output, p)
    &&& output.to_multiset() == input.to_multiset()
}

proof fn lemma_insert_to_multiset(s: Seq<EntryView>, i: int, x: EntryView)
    requires
        0 <= i <= s.len(),
    ensures
        s.insert(i, x).to_multiset() =~= s.to_multiset().insert(x),
{
    broadcast use vstd::seq_lib::group_to_multiset_ensures, vstd::multiset::group_multiset_axioms;

    let t = s.insert(i, x);
    assert(t.remove(i) =~= s);
    assert(t[i] == x);
    assert(s.to_multiset() =~= t.to_multiset().remove(x));
    assert(t.contains(x));
    assert(t.to_multiset().count(x) > 0);
}

#[verifier::spinoff_prover]
#[verifier::rlimit(50)]
proof fn lemma_insert_step(
    specs: Seq<SortSpec>,
    pre: Seq<EntryView>,
    out: Seq<EntryView>,
    p: Seq<int>,
    x: EntryView,
    j: int,
)
    requires
        stable_sort_witness(specs, pre, out, p),
        0 <= j <= out.len(),
        j > 0 ==> entry_order(specs, out[j - 1], x) != Order::Greater,
        forall|m: int| j <= m < out.len() ==> entry_order(specs, #[trigger] out[m], x) == Order::Greater,
    ensures
        stable_sort_witness(specs, pre.push(x), out.insert(j, x), p.insert(j, pre.len() as int)),
{
    let n = pre.len() as int;
    let pre2 = pre.push(x);
    let out2 = out.insert(j, x);
    let p2 = p.insert(j, n);
    assert forall|k: int| 0 <= k < out2.len() implies 0 <= #[trigger] p2[k] < pre2.len() && out2[k]
        == pre2[p2[k]] by {
        if k < j {
            assert(p2[k] == p[k]);
        } else if k > j {
            assert(p2[k] == p[k - 1]);
        }
    }
    assert forall|k: int, l: int| 0 <= k < l < out2.len() implies #[trigger] p2[k] != #[trigger] p2[l] by {
        if k != j && l != j {
            let k0 = if k < j { k } else { k - 1 };
            let l0 = if l < j { l } else { l - 1 };
            assert(p2[k] == p[k0] && p2[l] == p[l0]);
            assert(p[k0] != p[l0]);
        } else if k == j {
            assert(p2[l] == p[l - 1]);
            assert(0 <= p[l - 1] < n);
        } else {
            assert(p2[k] == p[k]);
            assert(0 <= p[k] < n);
        }
    }
    assert forall|k: int, l: int| 0 <= k < l < out2.len() implies entry_order(
        specs,
        #[trigger] out2[k],
        #[trigger] out2[l],
    ) != Order::Greater && (entry_order(specs, out2[k], out2[l]) == Order::Equal ==> p2[k]
        < p2[l]) by {
        if k != j && l != j {
            let k0 = if k < j { k } else { k - 1 };
            let l0 = if l < j { l } else { l - 1 };
            assert(out2[k] == out[k0] && out2[l] == out[l0]);
            assert(p2[k] == p[k0] && p2[l] == p[l0]);
            assert(out[k0] == out[k0] && out[l0] == out[l0]);
        } else if k == j {
            assert(out2[l] == out[l - 1]);
            assert(entry_order(specs, out[l - 1], x) == Order::Greater);
            lemma_entry_order_flip(specs, out[l - 1], x);
        } else {
            assert(out2[k] == out[k]);
            assert(p2[k] == p[k]);
            assert(0 <= p[k] < n);
            if k < j - 1 {
                assert(entry_order(specs, out[k], out[j - 1]) != Order::Greater);
                lemma_entry_order_trans(specs, out[k], out[j - 1], x);
            }
        }
    }
}

/// Sorts a listing by the given criteria, keeping the relative order of
/// entries that compare equal; `..` entries go first.
pub fn stable_sort_entries(entries: Vec<FileEntry>, specs: &Vec<SortSpec>) -> (r: Vec<FileEntry>)
    ensures
        is_stable_sort(specs@, views(entries@), views(r@)),
{
    let ghost orig = views(entries@);
    let mut input = entries;
    let mut out: Vec<FileEntry> = Vec::new();
    let ghost mut p: Seq<int> = Seq::empty();
    let ghost mut i: int = 0;
    assert(orig.skip(0) =~= views(input@));
    assert(stable_sort_witness(specs@, orig.take(0), views(out@), p));
    assert(orig.take(0) =~= views(out@));
    while input.len() > 0
        invariant
            0 <= i <= orig.len(),
            views(input@) == orig.skip(i),
            stable_sort_witness(specs@, orig.take(i), views(out@), p),
            views(out@).to_multiset() == orig.take(i).to_multiset(),
        decreases input.len(),
    {
        let ghost input_before = input@;
        assert(views(input_before).len() == input_before.len());
        assert(orig.skip(i).len() > 0);
        assert(views(input_before)[0] == orig.skip(i)[0]);
        let x = input.remove(0);
        assert(x@ == orig[i]);
        assert(views(input@) =~= views(input_before).drop_first());
        let mut j = out.len();
        while j > 0 && compare_entries(specs, &out[j - 1], &x) == Order::Greater
            invariant
                0 <= j <= out.len(),
                forall|m: int|
                    j <= m < out.len() ==> entry_order(specs@, #[trigger] views(out@)[m], x@)
                        == Order::Greater,
            decreases j,
        {
            j = j - 1;
        }
        proof {
            if j > 0 {
                assert(entry_order(specs@, views(out@)[j - 1], x@) != Order::Greater);
            }
            lemma_insert_step(specs@, orig.take(i), views(out@), p, x@, j as int);
            p = p.insert(j as int, i);
        }
        let ghost out_before = views(out@);
        let ghost xv = x@;
        out.insert(j, x);
        proof {
            assert(orig.take(i).push(x@) =~= orig.take(i + 1));
            assert(views(out@) =~= out_before.insert(j as int, xv));
            lemma_insert_to_multiset(out_before, j as int, xv);
            broadcast use vstd::seq_lib::group_to_multiset_ensures;
            assert(orig.take(i + 1).to_multiset() =~= orig.take(i).to_multiset().insert(xv));
            assert(orig.skip(i).drop_first() =~= orig.skip(i + 1));
            i = i + 1;
        }
    }
    assert(orig.take(i) =~= orig);
    out
}

/// Whatever the criteria, a sorted listing that holds a `..` entry starts
/// with one.
pub proof fn lemma_parent_first(specs: Seq<SortSpec>, input: Seq<EntryView>, output: Seq<EntryView>, k: int)
    requires
        is_stable_sort(specs, input, output),
        0 <= k < output.len(),
        output[k].kind == FileEntryKind::Parent,
    ensures
        output[0].kind == FileEntryKind::Parent,
{
    if k > 0 {
        let p = choose|p: Seq<int>| stable_sort_witness(specs, input, output, p);
        assert(entry_order(specs, output[0], output[k]) != Order::Greater);
    }
}

/// A stable sort keeps the entries: the output is a rearrangement of the
/// input, each entry as many times as there.
pub proof fn lemma_sort_keeps_entries(specs: Seq<SortSpec>, input: Seq<EntryView>, output: Seq<EntryView>)
    requires
        is_stable_sort(specs, input, output),
    ensures
        output.len() == input.len(),
        forall|k: int| 0 <= k < output.len() ==> input.contains(#[trigger] output[k]),
        forall|k: int| 0 <= k < input.len() ==> output.contains(#[trigger] input[k]),
        forall|e: EntryView| #[trigger] output.to_multiset().count(e) == input.to_multiset().count(e),
{
    broadcast use vstd::seq_lib::group_to_multiset_ensures;

    let p = choose|p: Seq<int>| stable_sort_witness(specs, input, output, p);
    assert forall|k: int| 0 <= k < output.len() implies input.contains(#[trigger] output[k]) by {
        assert(output[k] == input[p[k]]);
    }
    assert forall|k: int| 0 <= k < input.len() implies output.contains(#[trigger] input[k]) by {
        assert(input.contains(input[k]));
        assert(input.to_multiset().count(input[k]) > 0);
    }
}

} // verus!

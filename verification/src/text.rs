//! Text helpers over sequences of characters: lexicographic ordering and
//! substring search, plus the NUL-terminated editing buffer of the text
//! input widgets.
use vstd::prelude::*;
use vstd::string::*;

verus! {

/// Result of a three-way comparison.
#[derive(Clone, Copy, PartialEq, Eq, Structural, Debug)]
pub enum Order {
    Less,
    Equal,
    Greater,
}

impl Order {
    /// The comparison seen from the other side.
    pub open spec fn flipped(self) -> Order {
        match self {
            Order::Less => Order::Greater,
            Order::Equal => Order::Equal,
            Order::Greater => Order::Less,
        }
    }

    /// Exchanges `Less` and `Greater`.
    pub fn reverse(self) -> (r: Order)
        ensures
            r == self.flipped(),
    {
        match self {
            Order::Less => Order::Greater,
            Order::Equal => Order::Equal,
            Order::Greater => Order::Less,
        }
    }
}

/// Three-way comparison of two integers.
pub open spec fn int_order(a: int, b: int) -> Order {
    if a < b {
        Order::Less
    } else if a == b {
        Order::Equal
    } else {
        Order::Greater
    }
}

/// Lexicographic order of two character sequences, by code point.
pub open spec fn lex_order(a: Seq<char>, b: Seq<char>) -> Order
    decreases a.len(),
{
    if a.len() == 0 {
        if b.len() == 0 {
            Order::Equal
        } else {
            Order::Less
        }
    } else if b.len() == 0 {
        Order::Greater
    } else if a[0] < b[0] {
        Order::Less
    } else if a[0] > b[0] {
        Order::Greater
    } else {
        lex_order(a.drop_first(), b.drop_first())
    }
}

/// Comparing in the other direction gives the flipped result.
pub proof fn lemma_lex_flip(a: Seq<char>, b: Seq<char>)
    ensures
        lex_order(b, a) == lex_order(a, b).flipped(),
    decreases a.len(),
{
    if a.len() > 0 && b.len() > 0 && a[0] == b[0] {
        lemma_lex_flip(a.drop_first(), b.drop_first());
    }
}

/// Two sequences compare equal exactly when they are the same sequence.
pub proof fn lemma_lex_equal(a: Seq<char>, b: Seq<char>)
    ensures
        (lex_order(a, b) == Order::Equal) == (a == b),
    decreases a.len(),
{
    if a.len() > 0 && b.len() > 0 {
        if a[0] == b[0] {
            lemma_lex_equal(a.drop_first(), b.drop_first());
            assert(a =~= seq![a[0]] + a.drop_first());
            assert(b =~= seq![b[0]] + b.drop_first());
            if a == b {
                assert(a.drop_first() == b.drop_first());
            }
        } else {
            assert(a[0] < b[0] || a[0] > b[0]);
            assert(a != b);
        }
    } else if a.len() == 0 && b.len() == 0 {
        assert(a =~= b);
    } else {
        assert(a.len() != b.len());
    }
}

/// A text comes before another that it begins, and before one that agrees
/// with it up to a position where its character is the smaller.
pub proof fn lemma_lex_less(a: Seq<char>, b: Seq<char>, i: int)
    requires
        0 <= i <= a.len(),
        i <= b.len(),
        a.take(i) == b.take(i),
        (i == a.len() && i < b.len()) || (i < a.len() && i < b.len() && a[i] < b[i]),
    ensures
        lex_order(a, b) == Order::Less,
    decreases i,
{
    if i > 0 {
        assert(a[0] == a.take(i)[0]);
        assert(b[0] == b.take(i)[0]);
        assert(a.drop_first().take(i - 1) =~= a.take(i).drop_first());
        assert(b.drop_first().take(i - 1) =~= b.take(i).drop_first());
        lemma_lex_less(a.drop_first(), b.drop_first(), i - 1);
    }
}

/// The lexicographic order is transitive, strictly where one step is strict.
pub proof fn lemma_lex_trans(a: Seq<char>, b: Seq<char>, c: Seq<char>)
    ensures
        lex_order(a, b) != Order::Greater && lex_order(b, c) != Order::Greater ==> lex_order(a, c)
            != Order::Greater,
        lex_order(a, b) == Order::Less && lex_order(b, c) != Order::Greater ==> lex_order(a, c)
            == Order::Less,
        lex_order(a, b) != Order::Greater && lex_order(b, c) == Order::Less ==> lex_order(a, c)
            == Order::Less,
        lex_order(a, b) == Order::Equal && lex_order(b, c) == Order::Equal ==> lex_order(a, c)
            == Order::Equal,
    decreases a.len(),
{
    if a.len() > 0 && b.len() > 0 && c.len() > 0 {
        lemma_lex_trans(a.drop_first(), b.drop_first(), c.drop_first());
    }
}

/// The characters of a string, as a vector.
pub fn chars_of(s: &str) -> (r: Vec<char>)
    ensures
        r@ == s@,
{
    let n = s.unicode_len();
    let mut r: Vec<char> = Vec::new();
    let mut i: usize = 0;
    while i < n
        invariant
            n == s@.len(),
            i <= n,
            r@ == s@.subrange(0, i as int),
        decreases n - i,
    {
        let c = s.get_char(i);
        r.push(c);
        i = i + 1;
        assert(r@ =~= s@.subrange(0, i as int));
    }
    assert(r@ =~= s@);
    r
}

proof fn lemma_lex_skip_step(a: Seq<char>, b: Seq<char>, i: int)
    requires
        0 <= i < a.len(),
        i < b.len(),
    ensures
        a[i] == b[i] ==> lex_order(a.skip(i), b.skip(i)) == lex_order(a.skip(i + 1), b.skip(i + 1)),
        a[i] < b[i] ==> lex_order(a.skip(i), b.skip(i)) == Order::Less,
        a[i] > b[i] ==> lex_order(a.skip(i), b.skip(i)) == Order::Greater,
{
    assert(a.skip(i).drop_first() =~= a.skip(i + 1));
    assert(b.skip(i).drop_first() =~= b.skip(i + 1));
}

/// Lexicographic comparison of two character vectors.
pub fn lex_compare(a: &Vec<char>, b: &Vec<char>) -> (r: Order)
    ensures
        r == lex_order(a@, b@),
{
    let mut i: usize = 0;
    assert(a@.skip(0) =~= a@);
    assert(b@.skip(0) =~= b@);
    while i < a.len() && i < b.len()
        invariant
            i <= a.len(),
            i <= b.len(),
            lex_order(a@, b@) == lex_order(a@.skip(i as int), b@.skip(i as int)),
        decreases a.len() - i,
    {
        proof {
            lemma_lex_skip_step(a@, b@, i as int);
        }
        let x = a[i];
        let y = b[i];
        if x < y {
            return Order::Less;
        } else if x > y {
            return Order::Greater;
        }
        assert(x == y);
        i = i + 1;
    }
    if i == a.len() {
        if i == b.len() {
            Order::Equal
        } else {
            Order::Less
        }
    } else {
        Order::Greater
    }
}

/// `needle` occurs in `hay` at position `i`.
pub open spec fn occurs_at(hay: Seq<char>, needle: Seq<char>, i: int) -> bool {
    0 <= i && i + needle.len() <= hay.len() && hay.subrange(i, i + needle.len()) == needle
}

/// `needle` occurs somewhere in `hay`.
pub open spec fn seq_contains(hay: Seq<char>, needle: Seq<char>) -> bool {
    exists|i: int| occurs_at(hay, needle, i)
}

fn matches_at(hay: &Vec<char>, needle: &Vec<char>, i: usize) -> (r: bool)
    requires
        i + needle.len() <= hay.len(),
    ensures
        r == occurs_at(hay@, needle@, i as int),
{
    let mut j: usize = 0;
    while j < needle.len()
        invariant
            i + needle.len() <= hay.len(),
            j <= needle.len(),
            forall|k: int| 0 <= k < j ==> hay@[i + k] == needle@[k],
        decreases needle.len() - j,
    {
        if hay[i + j] != needle[j] {
            assert(hay@.subrange(i as int, i + needle.len())[j as int] != needle@[j as int]);
            return false;
        }
        j = j + 1;
    }
    assert(hay@.subrange(i as int, i + needle.len()) =~= needle@);
    true
}

/// Whether `needle` occurs as a contiguous part of `hay`.
pub fn contains_chars(hay: &Vec<char>, needle: &Vec<char>) -> (r: bool)
    ensures
        r == seq_contains(hay@, needle@),
{
    if needle.len() == 0 {
        assert(hay@.subrange(0, 0) =~= needle@);
        assert(occurs_at(hay@, needle@, 0));
        return true;
    }
    if needle.len() > hay.len() {
        return false;
    }
    let last = hay.len() - needle.len();
    let mut i: usize = 0;
    while i <= last
        invariant
            last + needle.len() == hay.len(),
            needle.len() > 0,
            i <= last + 1,
            forall|k: int| 0 <= k < i ==> !occurs_at(hay@, needle@, k),
        decreases last + 1 - i,
    {
        if matches_at(hay, needle, i) {
            return true;
        }
        i = i + 1;
    }
    assert forall|k: int| !occurs_at(hay@, needle@, k) by {
        if 0 <= k && k + needle.len() <= hay.len() {
            assert(k < i);
        }
    }
    false
}

/// Prepares a text buffer for editing: a NUL terminator is appended.
pub fn text_pre_edit(text: &mut String)
    ensures
        final(text)@ == old(text)@.push('\0'),
{
    text.append("\0");
    proof {
        reveal_strlit("\0");
    }
    assert(final(text)@ =~= old(text)@.push('\0'));
}

/// Position of the first NUL character of `s`, if any.
pub open spec fn first_nul(s: Seq<char>) -> Option<int>
    decreases s.len(),
{
    if s.len() == 0 {
        None
    } else {
        match first_nul(s.drop_last()) {
            Some(k) => Some(k),
            None => if s.last() == '\0' {
                Some(s.len() - 1)
            } else {
                None
            },
        }
    }
}

proof fn lemma_first_nul_prefix(s: Seq<char>, n: int)
    requires
        0 <= n <= s.len(),
        first_nul(s.take(n)) is Some,
    ensures
        first_nul(s) == first_nul(s.take(n)),
    decreases s.len() - n,
{
    if n < s.len() {
        assert(s.take(n + 1).drop_last() =~= s.take(n));
        lemma_first_nul_prefix(s, n + 1);
    } else {
        assert(s.take(n) =~= s);
    }
}

proof fn lemma_first_nul_none(s: Seq<char>)
    requires
        forall|k: int| 0 <= k < s.len() ==> s[k] != '\0',
    ensures
        first_nul(s) is None,
    decreases s.len(),
{
    if s.len() > 0 {
        lemma_first_nul_none(s.drop_last());
    }
}

proof fn lemma_first_nul_range(s: Seq<char>)
    ensures
        first_nul(s) matches Some(k) ==> 0 <= k < s.len(),
    decreases s.len(),
{
    if s.len() > 0 {
        lemma_first_nul_range(s.drop_last());
    }
}

/// Finishes editing a text buffer: the text is cut at its first NUL, which
/// must be there.
pub fn text_post_edit(text: &mut String)
    requires
        first_nul(old(text)@) is Some,
    ensures
        final(text)@ == old(text)@.take(first_nul(old(text)@)->0),
{
    let chars = chars_of(text.as_str());
    let n = chars.len();
    let mut k: usize = 0;
    assert(chars@.take(0) =~= Seq::<char>::empty());
    while k < n
        invariant
            n == chars.len(),
            chars@ == old(text)@,
            *text == *old(text),
            k <= n,
            first_nul(chars@.take(k as int)) is None,
        decreases n - k,
    {
        assert(chars@.take(k + 1).drop_last() =~= chars@.take(k as int));
        if chars[k] == '\0' {
            proof {
                lemma_first_nul_prefix(chars@, k + 1);
            }
            let cut = text.as_str().substring_char(0, k).to_owned();
            *text = cut;
            return;
        }
        k = k + 1;
    }
    assert(chars@.take(n as int) =~= chars@);
    proof {
        lemma_first_nul_range(chars@);
    }
}

/// Preparing a text without NUL for editing and then finishing the edit
/// gives the text back.
pub proof fn lemma_edit_round_trip(s: Seq<char>)
    requires
        forall|k: int| 0 <= k < s.len() ==> s[k] != '\0',
    ensures
        first_nul(s.push('\0')) == Some(s.len() as int),
        s.push('\0').take(s.len() as int) == s,
{
    lemma_first_nul_none(s);
    assert(s.push('\0').drop_last() =~= s);
    assert(s.push('\0').take(s.len() as int) =~= s);
}

} // verus!

verus! {

/// What `str::to_lowercase` gives for the text `s`.
pub uninterp spec fn lowercase(s: Seq<char>) -> Seq<char>;

/// Calls `str::to_lowercase` on `s`.
///
/// Trusted: the result is named (`lowercase`), as a function of `s`; and,
/// since each character lowercases to one or more characters, it is empty
/// exactly when `s` is.
#[verifier::external_body]
pub(crate) fn to_lowercase(s: &str) -> (r: String)
    ensures
        r@ == lowercase(s@),
        (r@.len() == 0) == (s@.len() == 0),
{
    s.to_lowercase()
}

} // verus!

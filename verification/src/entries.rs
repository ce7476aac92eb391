//! Directory entries and their listing order.
//!
//! A listing shows all directories before all files; within each group
//! the names are in codepoint order. The order is a total ordering, so
//! any two listings of the same set of entries come out identical —
//! re-reading an unchanged directory always renders the same document,
//! whatever order the filesystem produced the entries in.

use vstd::prelude::*;
use vstd::relations::{sorted_by, total_ordering};
use vstd::seq_lib::group_to_multiset_ensures;
use vstd::seq_lib::lemma_sorted_unique;

verus! {

broadcast use group_to_multiset_ensures;

/// One immediate child of a directory: its name and whether it is
/// itself a directory. The name never contains a path separator (the
/// enumeration primitive yields bare names).
pub struct DirEntry {
    pub name: String,
    pub is_dir: bool,
}

/// The mathematical value of a [`DirEntry`].
#[verifier::ext_equal]
pub struct EntryV {
    pub name: Seq<char>,
    pub dir: bool,
}

impl View for DirEntry {
    type V = EntryV;

    open spec fn view(&self) -> EntryV {
        EntryV { name: self.name@, dir: self.is_dir }
    }
}

/// The views of a sequence of entries.
pub open spec fn views_of(s: Seq<DirEntry>) -> Seq<EntryV> {
    s.map_values(|e: DirEntry| e@)
}

/// Codepoint-wise lexicographic order on names.
pub open spec fn lex_le(a: Seq<char>, b: Seq<char>) -> bool
    decreases a.len(),
{
    if a.len() == 0 {
        true
    } else if b.len() == 0 {
        false
    } else if a[0] == b[0] {
        lex_le(a.skip(1), b.skip(1))
    } else {
        (a[0] as u32) < (b[0] as u32)
    }
}

/// Listing order: every directory before every file; within one group,
/// names in codepoint order.
pub open spec fn entry_le(a: EntryV, b: EntryV) -> bool {
    if a.dir != b.dir {
        a.dir
    } else {
        lex_le(a.name, b.name)
    }
}

/// The listing order as a relation value, for use with `sorted_by`.
pub open spec fn entry_order() -> spec_fn(EntryV, EntryV) -> bool {
    |a: EntryV, b: EntryV| entry_le(a, b)
}

/// Applying the relation value is applying [`entry_le`].
pub broadcast proof fn lemma_entry_order_applies(a: EntryV, b: EntryV)
    ensures
        #[trigger] entry_order()(a, b) == entry_le(a, b),
{
}

proof fn lemma_lex_le_refl(a: Seq<char>)
    ensures
        lex_le(a, a),
    decreases a.len(),
{
    if a.len() > 0 {
        lemma_lex_le_refl(a.skip(1));
    }
}

proof fn lemma_lex_le_connected(a: Seq<char>, b: Seq<char>)
    ensures
        lex_le(a, b) || lex_le(b, a),
    decreases a.len(),
{
    if a.len() > 0 && b.len() > 0 {
        if a[0] == b[0] {
            lemma_lex_le_connected(a.skip(1), b.skip(1));
        } else {
            // distinct chars have distinct codepoints
            vstd::utf8::char_u32_cast(a[0], a[0] as u32);
            vstd::utf8::char_u32_cast(b[0], b[0] as u32);
        }
    }
}

proof fn lemma_lex_le_antisymmetric(a: Seq<char>, b: Seq<char>)
    requires
        lex_le(a, b),
        lex_le(b, a),
    ensures
        a == b,
    decreases a.len(),
{
    if a.len() == 0 {
        assert(b.len() == 0);
        assert(a =~= b);
    } else {
        assert(b.len() > 0);
        assert(a[0] == b[0]);
        lemma_lex_le_antisymmetric(a.skip(1), b.skip(1));
        assert(a.skip(1).len() == b.skip(1).len());
        assert(a.len() == b.len());
        assert forall|i: int| 0 <= i < a.len() implies a[i] == b[i] by {
            if i > 0 {
                assert(a[i] == a.skip(1)[i - 1]);
                assert(b[i] == b.skip(1)[i - 1]);
            }
        }
        assert(a =~= b);
    }
}

proof fn lemma_lex_le_transitive(a: Seq<char>, b: Seq<char>, c: Seq<char>)
    requires
        lex_le(a, b),
        lex_le(b, c),
    ensures
        lex_le(a, c),
    decreases a.len(),
{
    if a.len() > 0 && b.len() > 0 && c.len() > 0 && a[0] == b[0] && b[0] == c[0] {
        lemma_lex_le_transitive(a.skip(1), b.skip(1), c.skip(1));
    }
}

/// The listing order is a total ordering, so sorting under it yields
/// one canonical arrangement of any multiset of entries.
pub proof fn lemma_entry_order_total()
    ensures
        total_ordering(entry_order()),
{
    assert forall|x: EntryV| #[trigger] entry_order()(x, x) by {
        lemma_lex_le_refl(x.name);
    }
    assert forall|x: EntryV, y: EntryV| #[trigger] entry_order()(x, y) && #[trigger] entry_order()(
        y,
        x,
    ) implies x == y by {
        if x.dir == y.dir {
            lemma_lex_le_antisymmetric(x.name, y.name);
        }
    }
    assert forall|x: EntryV, y: EntryV, z: EntryV|
        #[trigger] entry_order()(x, y) && #[trigger] entry_order()(y, z) implies entry_order()(
        x,
        z,
    ) by {
        if x.dir == y.dir && y.dir == z.dir {
            lemma_lex_le_transitive(x.name, y.name, z.name);
        }
    }
    assert forall|x: EntryV, y: EntryV| #[trigger] entry_order()(x, y) || #[trigger] entry_order()(
        y,
        x,
    ) by {
        if x.dir == y.dir {
            lemma_lex_le_connected(x.name, y.name);
        }
    }
}

/// Compares two names in codepoint order.
fn name_le(a: &str, b: &str) -> (r: bool)
    ensures
        r == lex_le(a@, b@),
{
    let alen = a.unicode_len();
    let blen = b.unicode_len();
    let mut i: usize = 0;
    proof {
        assert(a@.skip(0) =~= a@);
        assert(b@.skip(0) =~= b@);
    }
    loop
        invariant
            0 <= i <= alen,
            0 <= i <= blen,
            alen == a@.len(),
            blen == b@.len(),
            lex_le(a@, b@) == lex_le(a@.skip(i as int), b@.skip(i as int)),
        decreases alen - i,
    {
        if i == alen {
            return true;
        }
        if i == blen {
            return false;
        }
        let ca = a.get_char(i);
        let cb = b.get_char(i);
        if ca == cb {
            proof {
                assert(a@.skip(i as int).skip(1) =~= a@.skip(i + 1));
                assert(b@.skip(i as int).skip(1) =~= b@.skip(i + 1));
            }
            i = i + 1;
        } else {
            return (ca as u32) < (cb as u32);
        }
    }
}

/// Compares two entries in listing order.
fn entry_le_exec(a: &DirEntry, b: &DirEntry) -> (r: bool)
    ensures
        r == entry_le(a@, b@),
{
    if a.is_dir != b.is_dir {
        a.is_dir
    } else {
        name_le(a.name.as_str(), b.name.as_str())
    }
}

/// Inserts `e` into the sorted vector `out`, keeping it sorted.
fn insert_sorted(out: &mut Vec<DirEntry>, e: DirEntry)
    requires
        sorted_by(views_of(old(out)@), entry_order()),
    ensures
        sorted_by(views_of(final(out)@), entry_order()),
        views_of(final(out)@).to_multiset() == views_of(old(out)@).to_multiset().insert(e@),
{
    broadcast use lemma_entry_order_applies;

    proof {
        lemma_entry_order_total();
    }
    let mut p: usize = 0;
    while p < out.len() && entry_le_exec(&out[p], &e)
        invariant
            0 <= p <= out@.len(),
            out@ == old(out)@,
            sorted_by(views_of(out@), entry_order()),
            forall|j: int| 0 <= j < p ==> entry_le(#[trigger] views_of(out@)[j], e@),
        decreases out@.len() - p,
    {
        p = p + 1;
    }
    let ghost before = views_of(out@);
    let ghost pos = p as int;
    proof {
        if pos < before.len() {
            // the scan stopped here, so e precedes this entry
            assert(before[pos] == out@[pos]@);
            assert(!entry_le(before[pos], e@));
            assert(!entry_order()(before[pos], e@));
            assert(entry_order()(e@, before[pos]));
            assert(entry_le(e@, before[pos]));
        }
    }
    out.insert(p, e);
    proof {
        let after = views_of(out@);
        assert(after =~= before.insert(pos, e@));
        lemma_entry_order_total();
        assert forall|i: int, j: int| 0 <= i < j < after.len() implies #[trigger] entry_order()(
            after[i],
            after[j],
        ) by {
            before.insert_ensures(pos, e@);
            if j < pos {
                assert(entry_order()(before[i], before[j]));
            } else if i < pos && j == pos {
                assert(entry_le(before[i], e@));
                assert(entry_order()(before[i], e@));
            } else if i < pos && j > pos {
                assert(entry_order()(before[i], before[j - 1]));
                assert(entry_le(before[i], e@));
                assert(entry_order()(before[i], e@));
            } else if i == pos {
                // the scan stopped at pos, so e precedes out[pos..]
                assert(pos <= j - 1 < before.len());
                assert(!entry_le(before[pos], e@));
                assert(entry_order()(e@, before[pos]));
                if j - 1 > pos {
                    assert(entry_order()(before[pos], before[j - 1]));
                }
                assert(entry_order()(e@, before[j - 1]));
            } else {
                assert(entry_order()(before[i - 1], before[j - 1]));
            }
        }
    }
}

/// Sorts the enumerated entries of one directory into listing order:
/// directories first, then files, each group by name in codepoint
/// order. The entries themselves are kept: the result is a permutation
/// of the input.
pub fn sort_entries(v: &mut Vec<DirEntry>)
    ensures
        sorted_by(views_of(final(v)@), entry_order()),
        views_of(final(v)@).to_multiset() == views_of(old(v)@).to_multiset(),
{
    let ghost orig = views_of(old(v)@).to_multiset();
    let mut out: Vec<DirEntry> = Vec::new();
    proof {
        assert(views_of(out@) =~= Seq::<EntryV>::empty());
        assert(views_of(out@).to_multiset().add(views_of(v@).to_multiset()) =~= views_of(
            v@,
        ).to_multiset());
    }
    while v.len() > 0
        invariant
            sorted_by(views_of(out@), entry_order()),
            views_of(out@).to_multiset().add(views_of(v@).to_multiset()) == orig,
        decreases v@.len(),
    {
        let ghost vs = views_of(v@);
        let e = v.pop().unwrap();
        proof {
            assert(vs.remove(vs.len() - 1) =~= views_of(v@));
            assert(vs.remove(vs.len() - 1).to_multiset() == vs.to_multiset().remove(
                vs[vs.len() - 1],
            ));
            assert(vs[vs.len() - 1] == e@);
        }
        insert_sorted(&mut out, e);
        proof {
            assert(views_of(out@).to_multiset().add(views_of(v@).to_multiset()) =~= orig);
        }
    }
    proof {
        assert(views_of(v@) =~= Seq::<EntryV>::empty());
        assert(views_of(out@).to_multiset().add(views_of(v@).to_multiset()) =~= views_of(
            out@,
        ).to_multiset());
    }
    *v = out;
}

/// In a sorted listing, every directory stands before every file, and
/// within each of the two groups the names are non-decreasing in
/// codepoint order.
pub proof fn lemma_listing_partitioned(s: Seq<EntryV>)
    requires
        sorted_by(s, entry_order()),
    ensures
        forall|i: int, j: int|
            0 <= i < j < s.len() && !(#[trigger] s[i]).dir ==> !(#[trigger] s[j]).dir,
        forall|i: int, j: int|
            0 <= i < j < s.len() && (#[trigger] s[i]).dir == (#[trigger] s[j]).dir ==> lex_le(
                s[i].name,
                s[j].name,
            ),
{
    broadcast use lemma_entry_order_applies;

    assert forall|i: int, j: int| 0 <= i < j < s.len() implies entry_le(
        #[trigger] s[i],
        #[trigger] s[j],
    ) by {
        assert(entry_order()(s[i], s[j]));
    }
}

/// Two sorted listings of the same entries are identical: the listing
/// a directory gets does not depend on the order the filesystem
/// produced its entries in.
pub proof fn lemma_listing_canonical(a: Seq<EntryV>, b: Seq<EntryV>)
    requires
        sorted_by(a, entry_order()),
        sorted_by(b, entry_order()),
        a.to_multiset() == b.to_multiset(),
    ensures
        a == b,
{
    lemma_entry_order_total();
    lemma_sorted_unique(a, b, entry_order());
    assert(a =~= b);
}

/// What a directory listing renders — the enumerated entries sorted
/// into listing order — keeps exactly the enumerated entries and is
/// partitioned: every directory precedes every file, and within each
/// of the two groups the names are non-decreasing in codepoint order.
pub proof fn lemma_rendered_listing_partitioned(es: Seq<EntryV>)
    ensures
        ({
            let s = es.sort_by(entry_order());
            &&& s.to_multiset() == es.to_multiset()
            &&& forall|i: int, j: int|
                0 <= i < j < s.len() && !(#[trigger] s[i]).dir ==> !(#[trigger] s[j]).dir
            &&& forall|i: int, j: int|
                0 <= i < j < s.len() && (#[trigger] s[i]).dir == (#[trigger] s[j]).dir ==> lex_le(
                    s[i].name,
                    s[j].name,
                )
        }),
{
    lemma_entry_order_total();
    es.lemma_sort_by_ensures(entry_order());
    assert(es.sort_by(entry_order()).to_multiset() =~= es.to_multiset());
    lemma_listing_partitioned(es.sort_by(entry_order()));
}

/// Repeated listings of an unchanged directory are identical: two
/// enumerations holding the same entries — in whatever order the
/// filesystem produced them — sort to the same sequence, so the same
/// document is rendered for both.
pub proof fn lemma_listing_idempotent(a: Seq<EntryV>, b: Seq<EntryV>)
    requires
        a.to_multiset() == b.to_multiset(),
    ensures
        a.sort_by(entry_order()) == b.sort_by(entry_order()),
{
    lemma_entry_order_total();
    a.lemma_sort_by_ensures(entry_order());
    b.lemma_sort_by_ensures(entry_order());
    lemma_listing_canonical(a.sort_by(entry_order()), b.sort_by(entry_order()));
}

/// How many of the entries are directories.
pub open spec fn dir_count(s: Seq<EntryV>) -> nat
    decreases s.len(),
{
    if s.len() == 0 {
        0
    } else {
        dir_count(s.drop_last()) + if s.last().dir {
            1nat
        } else {
            0nat
        }
    }
}

proof fn lemma_dir_count_bound(s: Seq<EntryV>)
    ensures
        dir_count(s) <= s.len(),
    decreases s.len(),
{
    if s.len() > 0 {
        lemma_dir_count_bound(s.drop_last());
    }
}

/// Counts the directories and files among `entries`: the pair is
/// (directories, files), and the two add up to the number of entries.
pub fn count_entries(entries: &Vec<DirEntry>) -> (r: (usize, usize))
    ensures
        r.0 == dir_count(views_of(entries@)),
        r.1 == views_of(entries@).len() - dir_count(views_of(entries@)),
{
    let n = entries.len();
    let mut dirs: usize = 0;
    let mut i: usize = 0;
    proof {
        assert(views_of(entries@).take(0) =~= Seq::<EntryV>::empty());
    }
    while i < n
        invariant
            0 <= i <= n,
            n == entries@.len(),
            dirs == dir_count(views_of(entries@).take(i as int)),
            dirs <= i,
        decreases n - i,
    {
        proof {
            assert(views_of(entries@).take(i + 1).drop_last() =~= views_of(entries@).take(
                i as int,
            ));
            assert(views_of(entries@).take(i + 1).last() == entries@[i as int]@);
        }
        if entries[i].is_dir {
            dirs = dirs + 1;
        }
        i = i + 1;
    }
    proof {
        assert(views_of(entries@).take(n as int) =~= views_of(entries@));
        lemma_dir_count_bound(views_of(entries@));
    }
    (dirs, n - dirs)
}

} // verus!

//! Path entries and the order the aggregation sorts them by: byte-wise
//! lexicographic on the path, with the digest as a tie breaker so that the
//! order is total and the sorted sequence of any permutation is unique.

use vstd::prelude::*;
use vstd::relations::*;
use vstd::seq_lib::*;
use vstd::multiset::*;
use crate::digest::Digest;
use crate::digest::content_digest;
use crate::digest::file_digest;

verus! {

broadcast use {vstd::multiset::group_multiset_axioms, vstd::seq_lib::group_to_multiset_ensures};

/// One input file: its path (as bytes) and the digest of its content.
pub struct PathEntry {
    pub path: Vec<u8>,
    pub digest: Digest,
}

/// The mathematical value of a path entry: both fields as byte sequences.
#[verifier::ext_equal]
pub ghost struct EntryV {
    pub path: Seq<u8>,
    pub digest: Seq<u8>,
}

impl View for PathEntry {
    type V = EntryV;

    open spec fn view(&self) -> EntryV {
        EntryV { path: self.path@, digest: self.digest@ }
    }
}

impl PathEntry {
    /// Builds the entry for one file from its path bytes and the content
    /// read for it, if any was readable.
    pub fn new(path: Vec<u8>, content: &Option<Vec<u8>>) -> (r: PathEntry)
        ensures
            r@.path == path@,
            r@.digest == content_digest(match content {
                Option::Some(bytes) => Option::Some(bytes@),
                Option::None => Option::None,
            }),
    {
        let digest = file_digest(content);
        PathEntry { path, digest }
    }
}

/// The views of a sequence of entries.
pub open spec fn entries_view(s: Seq<PathEntry>) -> Seq<EntryV> {
    s.map_values(|e: PathEntry| e@)
}

/// Byte-wise lexicographic order: a prefix comes before what extends it.
pub open spec fn bytes_le(a: Seq<u8>, b: Seq<u8>) -> bool
    decreases a.len(),
{
    if a.len() == 0 {
        true
    } else if b.len() == 0 {
        false
    } else if a.first() == b.first() {
        bytes_le(a.drop_first(), b.drop_first())
    } else {
        a.first() < b.first()
    }
}

/// Any two byte sequences are ordered one way or the other.
pub proof fn lemma_bytes_le_total(a: Seq<u8>, b: Seq<u8>)
    ensures
        bytes_le(a, b) || bytes_le(b, a),
    decreases a.len(),
{
    if a.len() != 0 && b.len() != 0 && a.first() == b.first() {
        lemma_bytes_le_total(a.drop_first(), b.drop_first());
    }
}

/// Byte sequences ordered both ways are equal.
pub proof fn lemma_bytes_le_antisymmetric(a: Seq<u8>, b: Seq<u8>)
    requires
        bytes_le(a, b),
        bytes_le(b, a),
    ensures
        a == b,
    decreases a.len(),
{
    if a.len() == 0 {
        assert(b.len() == 0);
        assert(a =~= b);
    } else {
        assert(b.len() != 0);
        assert(a.first() == b.first());
        lemma_bytes_le_antisymmetric(a.drop_first(), b.drop_first());
        assert(a.drop_first().len() == b.drop_first().len());
        assert(a.len() == b.len());
        assert forall|i: int| 0 <= i < a.len() implies a[i] == b[i] by {
            if i > 0 {
                assert(a[i] == a.drop_first()[i - 1]);
                assert(b[i] == b.drop_first()[i - 1]);
            }
        }
        assert(a =~= b);
    }
}

/// The byte order is transitive.
pub proof fn lemma_bytes_le_transitive(a: Seq<u8>, b: Seq<u8>, c: Seq<u8>)
    requires
        bytes_le(a, b),
        bytes_le(b, c),
    ensures
        bytes_le(a, c),
    decreases a.len(),
{
    if a.len() != 0 {
        assert(b.len() != 0);
        assert(c.len() != 0);
        if a.first() == b.first() && b.first() == c.first() {
            lemma_bytes_le_transitive(a.drop_first(), b.drop_first(), c.drop_first());
        }
    }
}

/// The order the entries are sorted by: by path, ties broken by digest.
pub open spec fn entry_le(x: EntryV, y: EntryV) -> bool {
    if x.path == y.path {
        bytes_le(x.digest, y.digest)
    } else {
        bytes_le(x.path, y.path)
    }
}

/// The entry order as a relation value, for vstd's sorting vocabulary.
pub open spec fn entry_order() -> spec_fn(EntryV, EntryV) -> bool {
    |x: EntryV, y: EntryV| entry_le(x, y)
}

/// The entry order is a total ordering, so every multiset of entries has
/// exactly one sorted arrangement.
pub proof fn lemma_entry_le_total_ordering()
    ensures
        total_ordering(entry_order()),
{
    let r = entry_order();
    assert forall|x: EntryV| #[trigger] r(x, x) by {
        lemma_bytes_le_total(x.digest, x.digest);
    }
    assert forall|x: EntryV, y: EntryV| #[trigger] r(x, y) && #[trigger] r(y, x) implies x == y by {
        if x.path == y.path {
            lemma_bytes_le_antisymmetric(x.digest, y.digest);
            assert(x =~= y);
        } else {
            lemma_bytes_le_antisymmetric(x.path, y.path);
        }
    }
    assert forall|x: EntryV, y: EntryV, z: EntryV| #[trigger] r(x, y) && #[trigger] r(y, z) implies r(
        x,
        z,
    ) by {
        if x.path == y.path && y.path == z.path {
            lemma_bytes_le_transitive(x.digest, y.digest, z.digest);
        } else if x.path != y.path && y.path != z.path {
            lemma_bytes_le_transitive(x.path, y.path, z.path);
            if x.path == z.path {
                lemma_bytes_le_antisymmetric(x.path, y.path);
            }
        }
    }
    assert forall|x: EntryV, y: EntryV| #[trigger] r(x, y) || #[trigger] r(y, x) by {
        if x.path == y.path {
            lemma_bytes_le_total(x.digest, y.digest);
        } else {
            lemma_bytes_le_total(x.path, y.path);
        }
    }
}

/// Whether two byte vectors hold the same bytes.
pub(crate) fn bytes_eq(a: &Vec<u8>, b: &Vec<u8>) -> (r: bool)
    ensures
        r == (a@ == b@),
{
    if a.len() != b.len() {
        return false;
    }
    let mut i: usize = 0;
    while i < a.len()
        invariant
            a@.len() == b@.len(),
            i <= a@.len(),
            forall|j: int| 0 <= j < i ==> a@[j] == b@[j],
        decreases a@.len() - i,
    {
        if a[i] != b[i] {
            return false;
        }
        i = i + 1;
    }
    proof {
        assert(a@ =~= b@);
    }
    true
}

/// Byte-wise lexicographic comparison of two byte vectors.
fn bytes_le_exec(a: &Vec<u8>, b: &Vec<u8>) -> (r: bool)
    ensures
        r == bytes_le(a@, b@),
{
    let mut i: usize = 0;
    proof {
        assert(a@.skip(0) =~= a@);
        assert(b@.skip(0) =~= b@);
    }
    while i < a.len() && i < b.len()
        invariant
            i <= a@.len(),
            i <= b@.len(),
            bytes_le(a@, b@) == bytes_le(a@.skip(i as int), b@.skip(i as int)),
        decreases a@.len() - i,
    {
        let x = a[i];
        let y = b[i];
        proof {
            assert(a@.skip(i as int).first() == a@[i as int]);
            assert(b@.skip(i as int).first() == b@[i as int]);
        }
        if x != y {
            return x < y;
        }
        proof {
            assert(a@.skip(i as int).drop_first() =~= a@.skip(i as int + 1));
            assert(b@.skip(i as int).drop_first() =~= b@.skip(i as int + 1));
        }
        i = i + 1;
    }
    if i == a.len() {
        proof {
            assert(a@.skip(i as int).len() == 0);
        }
        true
    } else {
        proof {
            assert(b@.skip(i as int).len() == 0);
            assert(a@.skip(i as int).len() != 0);
        }
        false
    }
}

/// Compares two entries in the entry order.
fn entry_le_exec(x: &PathEntry, y: &PathEntry) -> (r: bool)
    ensures
        r == entry_le(x@, y@),
{
    if bytes_eq(&x.path, &y.path) {
        bytes_le_exec(x.digest.as_bytes(), y.digest.as_bytes())
    } else {
        bytes_le_exec(&x.path, &y.path)
    }
}

/// The empty sequence's multiset is empty.
proof fn lemma_to_multiset_empty<A>()
    ensures
        Seq::<A>::empty().to_multiset() =~= Multiset::<A>::empty(),
{
    lemma_multiset_empty_len(Seq::<A>::empty().to_multiset());
    assert(Seq::<A>::empty().to_multiset().len() == 0);
}

/// Inserting into a sequence inserts into its multiset.
proof fn lemma_seq_insert_to_multiset<A>(s: Seq<A>, p: int, y: A)
    requires
        0 <= p <= s.len(),
    ensures
        s.insert(p, y).to_multiset() =~= s.to_multiset().insert(y),
{
    let l = s.take(p);
    let r = s.skip(p);
    assert(s.insert(p, y) =~= l + (seq![y] + r));
    assert(s =~= l + r);
    lemma_multiset_commutative(l, seq![y] + r);
    lemma_multiset_commutative(seq![y], r);
    lemma_multiset_commutative(l, r);
    assert(seq![y] =~= Seq::<A>::empty().push(y));
    assert(Seq::<A>::empty().push(y).to_multiset() =~= Seq::<A>::empty().to_multiset().insert(y));
    lemma_to_multiset_empty::<A>();
}

/// Mapping to views commutes with inserting one entry.
proof fn lemma_entries_view_insert(s: Seq<PathEntry>, p: int, e: PathEntry)
    requires
        0 <= p <= s.len(),
    ensures
        entries_view(s.insert(p, e)) =~= entries_view(s).insert(p, e@),
{
}

/// Mapping to views commutes with pushing one entry.
proof fn lemma_entries_view_push(s: Seq<PathEntry>, e: PathEntry)
    ensures
        entries_view(s.push(e)) =~= entries_view(s).push(e@),
{
}

/// Inserts one entry into a sorted vector, keeping it sorted and adding the
/// entry's view to its contents.
fn insert_in_order(v: &mut Vec<PathEntry>, e: PathEntry)
    requires
        sorted_by(entries_view(old(v)@), entry_order()),
    ensures
        sorted_by(entries_view(final(v)@), entry_order()),
        entries_view(final(v)@).to_multiset() == entries_view(old(v)@).to_multiset().insert(e@),
{
    let pos = lower_bound(v, &e);
    proof {
        lemma_entries_view_insert(v@, pos as int, e);
        lemma_seq_insert_to_multiset(entries_view(v@), pos as int, e@);
        lemma_entry_le_total_ordering();
        let vs = entries_view(v@);
        let ns = vs.insert(pos as int, e@);
        let r = entry_order();
        assert forall|i: int, j: int| 0 <= i < j < ns.len() implies #[trigger] r(ns[i], ns[j]) by {
            if j < pos {
                assert(ns[i] == vs[i] && ns[j] == vs[j]);
            } else if i < pos && j == pos {
                assert(ns[i] == vs[i] && ns[j] == e@);
                assert(!r(e@, vs[i]));
            } else if i < pos && j > pos {
                assert(ns[i] == vs[i] && ns[j] == vs[j - 1]);
            } else if i == pos {
                assert(ns[i] == e@ && ns[j] == vs[j - 1]);
                assert(r(e@, vs[pos as int]));
                if j - 1 > pos {
                    assert(r(vs[pos as int], vs[j - 1]));
                }
            } else {
                assert(ns[i] == vs[i - 1] && ns[j] == vs[j - 1]);
            }
        }
    }
    v.insert(pos, e);
}

/// The first position whose entry is at or after the given one in the entry
/// order; entries before it all come strictly before it.
fn lower_bound(v: &Vec<PathEntry>, e: &PathEntry) -> (pos: usize)
    ensures
        pos <= v@.len(),
        forall|j: int| 0 <= j < pos ==> !entry_le(e@, #[trigger] entries_view(v@)[j]),
        pos < v@.len() ==> entry_le(e@, entries_view(v@)[pos as int]),
{
    let mut pos: usize = 0;
    while pos < v.len()
        invariant
            pos <= v@.len(),
            forall|j: int| 0 <= j < pos ==> !entry_le(e@, #[trigger] entries_view(v@)[j]),
        decreases v@.len() - pos,
    {
        if entry_le_exec(e, &v[pos]) {
            return pos;
        }
        pos = pos + 1;
    }
    pos
}

/// Sorts the entries in the entry order.  The result's views are exactly the
/// one sorted arrangement of the input's views, so any two permutations of
/// the same entries sort to the same sequence.
pub fn sort_entries(entries: Vec<PathEntry>) -> (r: Vec<PathEntry>)
    ensures
        entries_view(r@) == entries_view(entries@).sort_by(entry_order()),
{
    let ghost orig = entries_view(entries@);
    let mut rest = entries;
    let mut out: Vec<PathEntry> = Vec::new();
    proof {
        lemma_to_multiset_empty::<EntryV>();
        assert(entries_view(out@) =~= Seq::<EntryV>::empty());
        assert(entries_view(rest@) == orig);
    }
    while rest.len() > 0
        invariant
            sorted_by(entries_view(out@), entry_order()),
            entries_view(out@).to_multiset().add(entries_view(rest@).to_multiset())
                == orig.to_multiset(),
        decreases rest@.len(),
    {
        let ghost rest_before = rest@;
        let popped = rest.pop();
        let e = popped.unwrap();
        proof {
            assert(rest_before =~= rest@.push(e));
            lemma_entries_view_push(rest@, e);
            assert(entries_view(rest@).push(e@).to_multiset() == entries_view(
                rest@,
            ).to_multiset().insert(e@));
            assert(entries_view(rest_before).to_multiset() == entries_view(
                rest@,
            ).to_multiset().insert(e@));
        }
        let ghost out_before = entries_view(out@);
        insert_in_order(&mut out, e);
        proof {
            assert(entries_view(out@).to_multiset().add(entries_view(rest@).to_multiset())
                =~= out_before.to_multiset().add(entries_view(rest_before).to_multiset()));
        }
    }
    proof {
        assert(entries_view(rest@) =~= Seq::<EntryV>::empty());
        lemma_to_multiset_empty::<EntryV>();
        assert(entries_view(out@).to_multiset() =~= orig.to_multiset());
        lemma_entry_le_total_ordering();
        orig.lemma_sort_by_ensures(entry_order());
        lemma_sorted_unique(entries_view(out@), orig.sort_by(entry_order()), entry_order());
    }
    out
}

} // verus!

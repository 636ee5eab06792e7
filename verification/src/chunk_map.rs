//! The chunk interval map: non-overlapping logical ranges, each mapped to
//! a physical device offset.
//!
//! Ranges are kept sorted by start and pairwise disjoint.  Inserting a
//! range that collides with an existing entry is a no-op: the existing
//! entry wins.  A point query for a logical address `l` finds the entry
//! whose range contains `l` and answers `offset + (l - start)`.

use vstd::prelude::*;

verus! {

/// One logical range `[start, start + size)`.
#[derive(Clone, Copy, Debug, PartialEq, Eq, Structural)]
pub struct ChunkTreeKey {
    pub start: u64,
    pub size: u64,
}

/// The physical offset backing a range (stripe 0 of the chunk).
#[derive(Clone, Copy, Debug, PartialEq, Eq, Structural)]
pub struct ChunkTreeValue {
    pub offset: u64,
}

/// Two non-empty ranges share at least one address.
pub open spec fn spec_overlaps(a: ChunkTreeKey, b: ChunkTreeKey) -> bool {
    &&& a.size > 0
    &&& b.size > 0
    &&& a.start < b.start + b.size
    &&& b.start < a.start + a.size
}

/// `l` lies inside the range `k`.
pub open spec fn spec_covers(k: ChunkTreeKey, l: u64) -> bool {
    k.start <= l < k.start + k.size
}

/// The physical address that the entry `e` assigns to the logical
/// address `l`, as an unbounded integer.
pub open spec fn spec_phys(e: (ChunkTreeKey, ChunkTreeValue), l: u64) -> int {
    e.1.offset + l - e.0.start
}

/// Entries are non-empty, sorted by start, and pairwise disjoint.
pub open spec fn cache_wf(s: Seq<(ChunkTreeKey, ChunkTreeValue)>) -> bool {
    &&& forall|i: int| 0 <= i < s.len() ==> (#[trigger] s[i]).0.size > 0
    &&& forall|i: int|
        0 <= i && i + 1 < s.len() ==> (#[trigger] s[i]).0.start + s[i].0.size <= s[i + 1].0.start
}

/// The first entry whose range contains `l`, scanning in start order.
pub open spec fn spec_find(s: Seq<(ChunkTreeKey, ChunkTreeValue)>, l: u64) -> Option<
    (ChunkTreeKey, ChunkTreeValue),
>
    decreases s.len(),
{
    if s.len() == 0 {
        None
    } else if spec_covers(s[0].0, l) {
        Some(s[0])
    } else {
        spec_find(s.drop_first(), l)
    }
}

/// Some entry of `s` overlaps the range `k`.
pub open spec fn spec_collides(s: Seq<(ChunkTreeKey, ChunkTreeValue)>, k: ChunkTreeKey) -> bool {
    exists|i: int| 0 <= i < s.len() && spec_overlaps((#[trigger] s[i]).0, k)
}

/// `s` with `(k, v)` placed before the first entry whose start
/// exceeds `k.start`.
pub open spec fn spec_insert_sorted(
    s: Seq<(ChunkTreeKey, ChunkTreeValue)>,
    k: ChunkTreeKey,
    v: ChunkTreeValue,
) -> Seq<(ChunkTreeKey, ChunkTreeValue)>
    decreases s.len(),
{
    if s.len() == 0 {
        seq![(k, v)]
    } else if k.start < s[0].0.start {
        seq![(k, v)] + s
    } else {
        seq![s[0]] + spec_insert_sorted(s.drop_first(), k, v)
    }
}

/// What insertion does: an empty or colliding range is dropped, any other
/// range is placed in start order.
pub open spec fn spec_insert(
    s: Seq<(ChunkTreeKey, ChunkTreeValue)>,
    k: ChunkTreeKey,
    v: ChunkTreeValue,
) -> Seq<(ChunkTreeKey, ChunkTreeValue)> {
    if k.size == 0 || spec_collides(s, k) {
        s
    } else {
        spec_insert_sorted(s, k, v)
    }
}

/// The interval map.  Its view is the sequence of entries in start order.
#[derive(Clone, Debug)]
pub struct ChunkTreeCache {
    entries: Vec<(ChunkTreeKey, ChunkTreeValue)>,
}

impl View for ChunkTreeCache {
    type V = Seq<(ChunkTreeKey, ChunkTreeValue)>;

    closed spec fn view(&self) -> Seq<(ChunkTreeKey, ChunkTreeValue)> {
        self.entries@
    }
}

impl Default for ChunkTreeCache {
    /// The empty map.
    fn default() -> (r: Self)
        ensures
            r@ == Seq::<(ChunkTreeKey, ChunkTreeValue)>::empty(),
            r.wf(),
    {
        ChunkTreeCache { entries: Vec::new() }
    }
}

impl ChunkTreeCache {
    pub open spec fn wf(self) -> bool {
        cache_wf(self@)
    }

    /// The empty map.
    pub fn new() -> (r: Self)
        ensures
            r@ == Seq::<(ChunkTreeKey, ChunkTreeValue)>::empty(),
            r.wf(),
    {
        ChunkTreeCache { entries: Vec::new() }
    }

    /// Number of ranges held.
    pub fn len(&self) -> (r: usize)
        ensures
            r == self@.len(),
    {
        self.entries.len()
    }

    /// The `i`-th entry in start order.
    pub fn entry_at(&self, i: usize) -> (r: (ChunkTreeKey, ChunkTreeValue))
        requires
            i < self@.len(),
        ensures
            r == self@[i as int],
    {
        self.entries[i]
    }

    /// Tests whether two non-empty ranges share an address.
    fn overlaps(a: &ChunkTreeKey, b: &ChunkTreeKey) -> (r: bool)
        ensures
            r == spec_overlaps(*a, *b),
    {
        if a.size == 0 || b.size == 0 {
            false
        } else if a.start <= b.start {
            b.start - a.start < a.size
        } else {
            a.start - b.start < b.size
        }
    }

    /// Inserts the mapping `k -> v`.  An empty range, or one that
    /// collides with an existing entry, is silently dropped and the map
    /// is left unchanged; the existing entry wins.
    pub fn insert(&mut self, k: ChunkTreeKey, v: ChunkTreeValue)
        requires
            old(self).wf(),
        ensures
            final(self).wf(),
            final(self)@ == spec_insert(old(self)@, k, v),
    {
        if k.size == 0 {
            return ;
        }
        let n = self.entries.len();
        let mut i: usize = 0;
        while i < n
            invariant
                old(self).wf(),
                n == self@.len(),
                i <= n,
                *self == *old(self),
                forall|j: int| 0 <= j < i ==> !spec_overlaps((#[trigger] self@[j]).0, k),
            decreases n - i,
        {
            if Self::overlaps(&self.entries[i].0, &k) {
                return ;
            }
            i = i + 1;
        }
        assert(!spec_collides(self@, k));
        // Find the first entry whose start exceeds `k.start`.
        let mut pos: usize = 0;
        while pos < n && self.entries[pos].0.start <= k.start
            invariant
                old(self).wf(),
                n == self@.len(),
                pos <= n,
                *self == *old(self),
                forall|j: int| 0 <= j < pos ==> (#[trigger] self@[j]).0.start <= k.start,
            decreases n - pos,
        {
            pos = pos + 1;
        }
        let ghost s = self@;
        self.entries.insert(pos, (k, v));
        proof {
            lemma_insert_sorted_at(s, k, v, pos as int);
            assert(self@ =~= s.subrange(0, pos as int) + seq![(k, v)] + s.subrange(
                pos as int,
                s.len() as int,
            ));
            assert(spec_insert(s, k, v) == self@);
            lemma_insert_keeps_wf(s, k, v, pos as int);
        }
    }

    /// The entry containing `logical`, with its range, or nothing.
    pub fn mapping_kv(&self, logical: u64) -> (r: Option<(ChunkTreeKey, ChunkTreeValue)>)
        ensures
            r == spec_find(self@, logical),
    {
        let n = self.entries.len();
        let mut i: usize = 0;
        proof {
            assert(self@.skip(0) =~= self@);
        }
        while i < n
            invariant
                n == self@.len(),
                i <= n,
                spec_find(self@, logical) == spec_find(self@.skip(i as int), logical),
            decreases n - i,
        {
            let e = self.entries[i];
            proof {
                assert(self@.skip(i as int)[0] == self@[i as int]);
                assert(self@.skip(i as int).drop_first() =~= self@.skip(i + 1));
            }
            if e.0.size > 0 && logical >= e.0.start && logical - e.0.start < e.0.size {
                return Some(e);
            }
            i = i + 1;
        }
        proof {
            assert(self@.skip(n as int) =~= Seq::<(ChunkTreeKey, ChunkTreeValue)>::empty());
        }
        None
    }

    /// The physical address of `logical`, or nothing if no range covers
    /// it or the translated address does not fit in 64 bits.
    pub fn offset(&self, logical: u64) -> (r: Option<u64>)
        ensures
            match spec_find(self@, logical) {
                Some(e) => {
                    if spec_phys(e, logical) <= u64::MAX {
                        r matches Some(p) && p == spec_phys(e, logical)
                    } else {
                        r is None
                    }
                },
                None => r is None,
            },
    {
        proof {
            lemma_find_covers(self@, logical);
        }
        match self.mapping_kv(logical) {
            Some((k, v)) => {
                let d = logical - k.start;
                if v.offset <= u64::MAX - d {
                    Some(v.offset + d)
                } else {
                    None
                }
            },
            None => None,
        }
    }
}

/// When `k` overlaps no entry of the sorted map `s` and `pos` is the
/// first position whose start exceeds `k.start`, sorted insertion is
/// exactly insertion at `pos`.
proof fn lemma_insert_sorted_at(
    s: Seq<(ChunkTreeKey, ChunkTreeValue)>,
    k: ChunkTreeKey,
    v: ChunkTreeValue,
    pos: int,
)
    requires
        0 <= pos <= s.len(),
        forall|j: int| 0 <= j < pos ==> (#[trigger] s[j]).0.start <= k.start,
        pos < s.len() ==> k.start < s[pos].0.start,
    ensures
        spec_insert_sorted(s, k, v) == s.subrange(0, pos) + seq![(k, v)] + s.subrange(
            pos,
            s.len() as int,
        ),
    decreases s.len(),
{
    if s.len() == 0 {
        assert(spec_insert_sorted(s, k, v) =~= s.subrange(0, pos) + seq![(k, v)] + s.subrange(
            pos,
            s.len() as int,
        ));
    } else if pos == 0 {
        assert(k.start < s[0].0.start);
        assert(spec_insert_sorted(s, k, v) =~= s.subrange(0, pos) + seq![(k, v)] + s.subrange(
            pos,
            s.len() as int,
        ));
    } else {
        assert(s[0].0.start <= k.start);
        assert(!(k.start < s[0].0.start));
        let t = s.drop_first();
        assert forall|j: int| 0 <= j < pos - 1 implies (#[trigger] t[j]).0.start <= k.start by {
            assert(t[j] == s[j + 1]);
        }
        assert(pos - 1 < t.len() ==> k.start < t[pos - 1].0.start);
        lemma_insert_sorted_at(t, k, v, pos - 1);
        assert(spec_insert_sorted(s, k, v) == seq![s[0]] + spec_insert_sorted(t, k, v));
        assert(spec_insert_sorted(s, k, v) =~= s.subrange(0, pos) + seq![(k, v)] + s.subrange(
            pos,
            s.len() as int,
        ));
    }
}

/// Inserting a non-colliding, non-empty range at its sorted position
/// preserves well-formedness.
proof fn lemma_insert_keeps_wf(
    s: Seq<(ChunkTreeKey, ChunkTreeValue)>,
    k: ChunkTreeKey,
    v: ChunkTreeValue,
    pos: int,
)
    requires
        cache_wf(s),
        k.size > 0,
        !spec_collides(s, k),
        0 <= pos <= s.len(),
        forall|j: int| 0 <= j < pos ==> (#[trigger] s[j]).0.start <= k.start,
        pos < s.len() ==> k.start < s[pos].0.start,
    ensures
        cache_wf(s.subrange(0, pos) + seq![(k, v)] + s.subrange(pos, s.len() as int)),
{
    let t = s.subrange(0, pos) + seq![(k, v)] + s.subrange(pos, s.len() as int);
    assert(t.len() == s.len() + 1);
    assert(forall|j: int| 0 <= j < pos ==> t[j] == s[j]);
    assert(t[pos] == (k, v));
    assert(forall|j: int| pos < j < t.len() ==> t[j] == s[j - 1]);
    if pos > 0 {
        // The entry before `k` must end at or before `k.start`.
        assert(!spec_overlaps(s[pos - 1].0, k));
        assert(s[pos - 1].0.start <= k.start);
        assert(s[pos - 1].0.size > 0);
        assert(s[pos - 1].0.start + s[pos - 1].0.size <= k.start);
    }
    if pos < s.len() {
        // `k` must end at or before the start of the entry after it.
        assert(!spec_overlaps(s[pos].0, k));
        assert(k.start < s[pos].0.start);
        assert(s[pos].0.size > 0);
        assert(k.start + k.size <= s[pos].0.start);
    }
    assert forall|i: int| 0 <= i && i + 1 < t.len() implies (#[trigger] t[i]).0.start + t[i].0.size
        <= t[i + 1].0.start by {
        if i + 1 < pos {
            assert(t[i] == s[i] && t[i + 1] == s[i + 1]);
        } else if i + 1 == pos {
            assert(t[i] == s[i]);
        } else if i == pos {
        } else {
            assert(t[i] == s[i - 1] && t[i + 1] == s[i]);
        }
    }
}

/// A map found by `spec_find` really covers the query, and `spec_find`
/// succeeds exactly on covered addresses.
pub proof fn lemma_find_covers(s: Seq<(ChunkTreeKey, ChunkTreeValue)>, l: u64)
    ensures
        spec_find(s, l) is Some <==> exists|i: int| 0 <= i < s.len() && spec_covers(
            (#[trigger] s[i]).0,
            l,
        ),
        spec_find(s, l) matches Some(e) ==> s.contains(e) && spec_covers(e.0, l),
    decreases s.len(),
{
    if s.len() == 0 {
    } else if spec_covers(s[0].0, l) {
        assert(spec_covers(s[0].0, l));
    } else {
        let t = s.drop_first();
        lemma_find_covers(t, l);
        assert(spec_find(s, l) == spec_find(t, l));
        if spec_find(t, l) is Some {
            let e = spec_find(t, l)->Some_0;
            assert(t.contains(e));
            let i = choose|i: int| 0 <= i < t.len() && t[i] == e;
            assert(s[i + 1] == e);
            assert(s.contains(e));
            assert(spec_covers(s[i + 1].0, l));
        } else {
            assert forall|i: int| 0 <= i < s.len() implies !spec_covers((#[trigger] s[i]).0, l) by {
                if i > 0 {
                    assert(t[i - 1] == s[i]);
                }
            }
        }
    }
}

/// Inserting the same range twice is the same as inserting it once: the
/// second insertion collides with the first and is dropped.
pub proof fn lemma_insert_idempotent(
    s: Seq<(ChunkTreeKey, ChunkTreeValue)>,
    k: ChunkTreeKey,
    v: ChunkTreeValue,
)
    ensures
        spec_insert(spec_insert(s, k, v), k, v) == spec_insert(s, k, v),
{
    if k.size == 0 || spec_collides(s, k) {
    } else {
        let t = spec_insert_sorted(s, k, v);
        lemma_insert_sorted_contains(s, k, v);
        let i = choose|i: int| 0 <= i < t.len() && t[i] == (k, v);
        assert(spec_overlaps(t[i].0, k));
        assert(spec_collides(t, k));
    }
}

/// The entries after a sorted insertion are the old ones plus the new
/// one, nothing else.
proof fn lemma_insert_sorted_entries(
    s: Seq<(ChunkTreeKey, ChunkTreeValue)>,
    k: ChunkTreeKey,
    v: ChunkTreeValue,
)
    ensures
        forall|e: (ChunkTreeKey, ChunkTreeValue)| #[trigger]
            spec_insert_sorted(s, k, v).contains(e) ==> s.contains(e) || e == (k, v),
        forall|e: (ChunkTreeKey, ChunkTreeValue)|
            s.contains(e) ==> #[trigger] spec_insert_sorted(s, k, v).contains(e),
        spec_insert_sorted(s, k, v).contains((k, v)),
    decreases s.len(),
{
    let t = spec_insert_sorted(s, k, v);
    if s.len() == 0 {
        assert(t[0] == (k, v));
        assert(t.contains((k, v)));
    } else if k.start < s[0].0.start {
        assert(t == seq![(k, v)] + s);
        assert(t[0] == (k, v));
        assert(t.contains((k, v)));
        assert forall|e: (ChunkTreeKey, ChunkTreeValue)| #[trigger]
            t.contains(e) implies s.contains(e) || e == (k, v) by {
            let i = choose|i: int| 0 <= i < t.len() && t[i] == e;
            if i > 0 {
                assert(s[i - 1] == e);
            }
        }
        assert forall|e: (ChunkTreeKey, ChunkTreeValue)| s.contains(e) implies #[trigger]
            t.contains(e) by {
            let i = choose|i: int| 0 <= i < s.len() && s[i] == e;
            assert(t[i + 1] == e);
        }
    } else {
        let u = spec_insert_sorted(s.drop_first(), k, v);
        lemma_insert_sorted_entries(s.drop_first(), k, v);
        assert(t == seq![s[0]] + u);
        let iu = choose|i: int| 0 <= i < u.len() && u[i] == (k, v);
        assert(t[iu + 1] == (k, v));
        assert(t.contains((k, v)));
        assert forall|e: (ChunkTreeKey, ChunkTreeValue)| #[trigger]
            t.contains(e) implies s.contains(e) || e == (k, v) by {
            let i = choose|i: int| 0 <= i < t.len() && t[i] == e;
            if i == 0 {
                assert(s[0] == e);
                assert(s.contains(e));
            } else {
                assert(u[i - 1] == e);
                assert(u.contains(e));
                if s.drop_first().contains(e) {
                    let j = choose|j: int| 0 <= j < s.drop_first().len() && s.drop_first()[j] == e;
                    assert(s.drop_first()[j] == e);
                    assert(s.drop_first()[j] == s[j + 1]);
                    assert(s.contains(e));
                }
            }
        }
        assert forall|e: (ChunkTreeKey, ChunkTreeValue)| s.contains(e) implies #[trigger]
            t.contains(e) by {
            let i = choose|i: int| 0 <= i < s.len() && s[i] == e;
            if i == 0 {
                assert(t[0] == e);
            } else {
                assert(s.drop_first()[i - 1] == e);
                assert(s.drop_first().contains(e));
                assert(u.contains(e));
                let j = choose|j: int| 0 <= j < u.len() && u[j] == e;
                assert(u[j] == e);
                assert(t[j + 1] == e);
            }
        }
    }
}

/// Insertion never removes an entry; what it adds is exactly the new
/// one, and a non-empty, non-colliding range really is added.
pub proof fn lemma_insert_entries(
    s: Seq<(ChunkTreeKey, ChunkTreeValue)>,
    k: ChunkTreeKey,
    v: ChunkTreeValue,
)
    ensures
        forall|e: (ChunkTreeKey, ChunkTreeValue)| #[trigger]
            spec_insert(s, k, v).contains(e) ==> s.contains(e) || e == (k, v),
        forall|e: (ChunkTreeKey, ChunkTreeValue)|
            s.contains(e) ==> #[trigger] spec_insert(s, k, v).contains(e),
        k.size > 0 && !spec_collides(s, k) ==> spec_insert(s, k, v).contains((k, v)),
{
    if k.size == 0 || spec_collides(s, k) {
    } else {
        lemma_insert_sorted_entries(s, k, v);
    }
}

/// Sorted insertion really places the new entry in the result.
proof fn lemma_insert_sorted_contains(
    s: Seq<(ChunkTreeKey, ChunkTreeValue)>,
    k: ChunkTreeKey,
    v: ChunkTreeValue,
)
    ensures
        exists|i: int|
            0 <= i < spec_insert_sorted(s, k, v).len() && spec_insert_sorted(s, k, v)[i] == (k, v),
    decreases s.len(),
{
    if s.len() == 0 {
        assert(spec_insert_sorted(s, k, v)[0] == (k, v));
    } else if k.start < s[0].0.start {
        assert(spec_insert_sorted(s, k, v)[0] == (k, v));
    } else {
        lemma_insert_sorted_contains(s.drop_first(), k, v);
        let t = spec_insert_sorted(s.drop_first(), k, v);
        let i = choose|i: int| 0 <= i < t.len() && t[i] == (k, v);
        assert(spec_insert_sorted(s, k, v)[i + 1] == (k, v));
    }
}

} // verus!

//! Sets of chunk indices.
use vstd::prelude::*;
use vstd::set_lib::*;

verus! {

/// The chunks from `start` up to and without `end`.
#[derive(Debug, Clone, Copy, PartialEq, Eq, Structural)]
pub struct ChunkRange {
    pub start: u64,
    pub end: u64,
}

impl ChunkRange {
    /// The indices in the range.
    pub open spec fn indices(self) -> Set<int> {
        set_int_range(self.start as int, self.end as int)
    }

    pub fn new(start: u64, end: u64) -> (r: Self)
        ensures
            r.start == start,
            r.end == end,
    {
        Self { start, end }
    }

    pub fn is_empty(&self) -> (r: bool)
        ensures
            r == (self.indices() =~= Set::<int>::empty()),
            r == (self.start >= self.end),
    {
        assert(self.start < self.end ==> self.indices().contains(self.start as int));
        self.start >= self.end
    }
}

/// Does one of the ranges hold the index `i`?
pub open spec fn covers(ranges: Seq<ChunkRange>, i: int) -> bool {
    exists|k: int| 0 <= k < ranges.len() && (#[trigger] ranges[k]).start <= i < ranges[k].end
}

/// The indices that some range holds.
pub open spec fn covered(ranges: Seq<ChunkRange>) -> Set<int> {
    Set::new(|i: int| covers(ranges, i))
}

/// No range is empty, they ascend, and between two of them at least one index is missing.
pub open spec fn canonical(ranges: Seq<ChunkRange>) -> bool {
    &&& forall|k: int| 0 <= k < ranges.len() ==> (#[trigger] ranges[k]).start < ranges[k].end
    &&& forall|j: int, k: int|
        0 <= j < k < ranges.len() ==> (#[trigger] ranges[j]).end < (#[trigger] ranges[k]).start
}

/// The list of ranges in canonical form that holds exactly these indices.
pub open spec fn shortest(indices: Set<int>) -> Seq<ChunkRange> {
    choose|ranges: Seq<ChunkRange>| #[trigger] canonical(ranges) && covered(ranges) == indices
}

/// A list in canonical form is the one for the indices it holds.
pub proof fn lemma_shortest(ranges: Seq<ChunkRange>)
    requires
        canonical(ranges),
    ensures
        shortest(covered(ranges)) == ranges,
{
    canonical_form_is_unique(shortest(covered(ranges)), ranges);
}

/// A set of chunk indices, kept as the shortest ascending list of ranges.
#[derive(Debug, PartialEq, Eq)]
pub struct RangeSet {
    ranges: Vec<ChunkRange>,
}

impl View for RangeSet {
    type V = Set<int>;

    closed spec fn view(&self) -> Set<int> {
        covered(self.ranges@)
    }
}

impl Clone for RangeSet {
    fn clone(&self) -> (r: Self)
        ensures
            r@ == self@,
    {
        proof {
            use_type_invariant(self);
        }
        Self { ranges: self.ranges.clone() }
    }
}

impl Default for RangeSet {
    /// The empty set.
    fn default() -> (r: Self)
        ensures
            r@ == Set::<int>::empty(),
    {
        Self::new()
    }
}

impl RangeSet {
    /// The ranges are in canonical form.
    #[verifier::type_invariant]
    pub closed spec fn wf(self) -> bool {
        canonical(self.ranges@)
    }

    /// The empty set.
    pub fn new() -> (r: Self)
        ensures
            r.wf(),
            r@ == Set::<int>::empty(),
    {
        let r = Self { ranges: Vec::new() };
        assert(r@ =~= Set::<int>::empty());
        r
    }

    pub fn from_ranges(ranges: Vec<ChunkRange>) -> (r: Self)
        ensures
            r.wf(),
            r@ == covered(ranges@),
    {
        let mut set = Self::new();
        let mut i: usize = 0;
        while i < ranges.len()
            invariant
                i <= ranges@.len(),
                set@ == covered(ranges@.take(i as int)),
            decreases ranges@.len() - i,
        {
            proof {
                lemma_covered_push(ranges@.take(i as int), ranges@[i as int]);
                assert(ranges@.take(i + 1) == ranges@.take(i as int).push(ranges@[i as int]));
            }
            set.insert_range(ranges[i]);
            i += 1;
        }
        assert(ranges@.take(i as int) == ranges@);
        proof {
            use_type_invariant(&set);
        }
        set
    }

    pub fn ranges(&self) -> (r: &[ChunkRange])
        ensures
            r@ == shortest(self@),
            canonical(r@),
            covered(r@) == self@,
    {
        proof {
            use_type_invariant(self);
            lemma_shortest(self.ranges@);
        }
        self.ranges.as_slice()
    }

    pub fn into_ranges(self) -> (r: Vec<ChunkRange>)
        ensures
            r@ == shortest(self@),
            canonical(r@),
            covered(r@) == self@,
    {
        proof {
            use_type_invariant(&self);
            lemma_shortest(self.ranges@);
        }
        self.ranges
    }

    pub fn insert(&mut self, index: u64)
        requires
            index < u64::MAX,
        ensures
            final(self)@ == old(self)@.insert(index as int),
    {
        self.insert_range(ChunkRange::new(index, index + 1));
        assert(self@ =~= old(self)@.insert(index as int));
    }

    pub fn insert_range(&mut self, new_range: ChunkRange)
        ensures
            final(self)@ == old(self)@.union(new_range.indices()),
    {
        proof {
            use_type_invariant(&*self);
        }
        if new_range.is_empty() {
            assert(self@ =~= old(self)@.union(new_range.indices()));
            return ;
        }
        let ghost src = self.ranges@;
        let ghost given = new_range;
        let mut grown = new_range;
        let mut merged: Vec<ChunkRange> = Vec::new();
        let mut inserted = false;
        let mut i: usize = 0;
        while i < self.ranges.len()
            invariant
                self.ranges@ == src,
                canonical(src),
                i <= src.len(),
                canonical(merged@),
                grown.start < grown.end,
                merged@.len() > 0 && i < src.len() ==> merged@.last().end < src[i as int].start,
                !inserted ==> {
                    &&& merged@.len() > 0 ==> merged@.last().end < grown.start
                    &&& covered(merged@).union(grown.indices()) == covered(
                        src.take(i as int),
                    ).union(given.indices())
                },
                inserted ==> {
                    &&& i < src.len() ==> grown.end < src[i as int].start
                    &&& covered(merged@) == covered(src.take(i as int)).union(given.indices())
                },
            decreases src.len() - i,
        {
            let range = self.ranges[i];
            assert(src.take(i + 1) == src.take(i as int).push(range));
            proof {
                lemma_covered_push(src.take(i as int), range);
                lemma_covered_push(merged@, range);
                lemma_covered_push(merged@, grown);
                lemma_covered_push(merged@.push(grown), range);
            }
            let ghost grown_before = grown;
            let ghost merged_before = merged@;
            if range.end < grown.start {
                merged.push(range);
            } else if grown.end < range.start {
                if !inserted {
                    merged.push(grown);
                    inserted = true;
                }
                merged.push(range);
            } else {
                if range.start < grown.start {
                    grown.start = range.start;
                }
                if range.end > grown.end {
                    grown.end = range.end;
                }
            }
            i += 1;
            proof {
                let goal = covered(src.take(i as int)).union(given.indices());
                if !inserted {
                    assert(covered(merged_before).union(grown_before.indices()).union(
                        range.indices(),
                    ) =~= goal);
                    assert(covered(merged@).union(grown.indices()) =~= goal);
                } else {
                    assert(covered(merged@) =~= goal);
                }
            }
        }
        proof {
            lemma_covered_push(merged@, grown);
            assert(src.take(i as int) == src);
        }
        if !inserted {
            merged.push(grown);
        }
        self.ranges = merged;
        assert(self@ =~= old(self)@.union(given.indices()));
    }

    /// The chunks below `total_chunks` that the set lacks, as ranges in canonical form.
    pub fn missing_ranges(&self, total_chunks: u64) -> (r: Vec<ChunkRange>)
        ensures
            r@ == shortest(set_int_range(0, total_chunks as int).difference(self@)),
            canonical(r@),
            covered(r@) == set_int_range(0, total_chunks as int).difference(self@),
    {
        proof {
            use_type_invariant(self);
        }
        let ghost src = self.ranges@;
        let mut missing: Vec<ChunkRange> = Vec::new();
        let mut cursor: u64 = 0;
        let mut i: usize = 0;
        assert(covered(missing@) =~= set_int_range(0, 0));
        while i < self.ranges.len()
            invariant
                self.ranges@ == src,
                canonical(src),
                i <= src.len(),
                cursor <= total_chunks,
                cursor == if i == 0 {
                    0
                } else if src[i - 1].end < total_chunks {
                    src[i - 1].end
                } else {
                    total_chunks
                },
                canonical(missing@),
                missing@.len() > 0 ==> missing@.last().end < cursor || (missing@.last().end
                    == cursor && cursor == total_chunks),
                covered(missing@) == set_int_range(0, cursor as int).difference(
                    covered(src.take(i as int)),
                ),
            decreases src.len() - i,
        {
            let range = self.ranges[i];
            let stop: u64 = if range.start < total_chunks {
                range.start
            } else {
                total_chunks
            };
            let ghost missing_before = missing@;
            let ghost cursor_before = cursor;
            proof {
                lemma_covered_push(src.take(i as int), range);
                assert(src.take(i + 1) == src.take(i as int).push(range));
            }
            if cursor < stop {
                proof {
                    lemma_covered_push(missing@, ChunkRange { start: cursor, end: stop });
                }
                missing.push(ChunkRange::new(cursor, stop));
            }
            if cursor < range.end {
                cursor = range.end;
            }
            if total_chunks < cursor {
                cursor = total_chunks;
            }
            i += 1;
            proof {
                let before = covered(src.take(i - 1));
                assert forall|x: int| before.contains(x) implies x < cursor_before || x
                    >= total_chunks by {
                    let k = choose|k: int|
                        0 <= k < src.take(i - 1).len() && (#[trigger] src.take(i - 1)[k]).start <= x
                            < src.take(i - 1)[k].end;
                    assert(src.take(i - 1)[k] == src[k]);
                    assert(k < i - 2 ==> src[k].end < src[i - 2].start);
                }
                assert(covered(missing@) =~= set_int_range(0, cursor as int).difference(
                    covered(src.take(i as int)),
                ));
            }
        }
        assert(src.take(i as int) == src);
        proof {
            lemma_covered_push(missing@, ChunkRange { start: cursor, end: total_chunks });
            assert forall|x: int| self@.contains(x) implies x < cursor || x >= total_chunks by {
                let k = choose|k: int|
                    0 <= k < src.len() && (#[trigger] src[k]).start <= x < src[k].end;
                assert(k < src.len() - 1 ==> src[k].end < src[src.len() - 1].start);
            }
        }
        if cursor < total_chunks {
            missing.push(ChunkRange::new(cursor, total_chunks));
        }
        assert(covered(missing@) =~= set_int_range(0, total_chunks as int).difference(self@));
        proof {
            lemma_shortest(missing@);
        }
        missing
    }

    /// How many chunks the set holds.
    pub fn completed_chunks(&self) -> (r: u64)
        ensures
            self@.finite(),
            r == self@.len(),
    {
        proof {
            use_type_invariant(self);
        }
        let ghost src = self.ranges@;
        let mut sum: u64 = 0;
        let mut i: usize = 0;
        while i < self.ranges.len()
            invariant
                self.ranges@ == src,
                canonical(src),
                i <= src.len(),
                sum == total_len(src.take(i as int)),
                i > 0 ==> sum <= src[i - 1].end,
            decreases src.len() - i,
        {
            let range = self.ranges[i];
            assert(src.take(i + 1).drop_last() == src.take(i as int));
            assert(src.take(i + 1).last() == range);
            assert(i > 0 ==> src[i - 1].end < range.start);
            sum = sum + (range.end - range.start);
            i += 1;
        }
        assert(src.take(i as int) == src);
        proof {
            lemma_covered_len(src);
        }
        sum
    }
}

proof fn lemma_covers_push(ranges: Seq<ChunkRange>, last: ChunkRange)
    ensures
        forall|x: int|
            covers(ranges.push(last), x) <==> covers(ranges, x) || last.start <= x < last.end,
{
    assert forall|x: int|
        covers(ranges.push(last), x) <==> covers(ranges, x) || last.start <= x < last.end by {
        if covers(ranges, x) {
            let k = choose|k: int|
                0 <= k < ranges.len() && (#[trigger] ranges[k]).start <= x < ranges[k].end;
            assert(ranges.push(last)[k] == ranges[k]);
        }
        if last.start <= x < last.end {
            assert(ranges.push(last)[ranges.len() as int] == last);
        }
        if covers(ranges.push(last), x) && !(last.start <= x < last.end) {
            let k = choose|k: int|
                0 <= k < ranges.push(last).len() && (#[trigger] ranges.push(last)[k]).start <= x
                    < ranges.push(last)[k].end;
            assert(ranges[k] == ranges.push(last)[k]);
        }
    }
}

pub proof fn lemma_covered_push(ranges: Seq<ChunkRange>, last: ChunkRange)
    ensures
        covered(ranges.push(last)) == covered(ranges).union(last.indices()),
{
    lemma_covers_push(ranges, last);
    assert(covered(ranges.push(last)) =~= covered(ranges).union(last.indices()));
}

/// The lengths of the ranges, added up.
spec fn total_len(ranges: Seq<ChunkRange>) -> int
    decreases ranges.len(),
{
    if ranges.len() == 0 {
        0
    } else {
        total_len(ranges.drop_last()) + (ranges.last().end - ranges.last().start)
    }
}

proof fn lemma_covered_len(ranges: Seq<ChunkRange>)
    requires
        canonical(ranges),
    ensures
        covered(ranges).finite(),
        covered(ranges).len() == total_len(ranges),
    decreases ranges.len(),
{
    if ranges.len() == 0 {
        assert(covered(ranges) =~= Set::<int>::empty());
    } else {
        let front = ranges.drop_last();
        let last = ranges.last();
        lemma_covered_len(front);
        lemma_covered_push(front, last);
        assert(front.push(last) == ranges);
        lemma_int_range(last.start as int, last.end as int);
        assert(covered(front).disjoint(last.indices())) by {
            assert forall|x: int| covered(front).contains(x) implies !last.indices().contains(
                x,
            ) by {
                let k = choose|k: int|
                    0 <= k < front.len() && (#[trigger] front[k]).start <= x < front[k].end;
                assert(ranges[k] == front[k]);
                assert(ranges[k].end < ranges[ranges.len() - 1].start);
            }
        }
        lemma_set_disjoint_lens(covered(front), last.indices());
        assert(covered(front) + last.indices() =~= covered(ranges));
    }
}

/// Two lists of ranges in canonical form that hold the same chunks are the same list: the form
/// of a set does not depend on the order in which its chunks came.
pub proof fn canonical_form_is_unique(a: Seq<ChunkRange>, b: Seq<ChunkRange>)
    requires
        canonical(a),
        canonical(b),
        covered(a) == covered(b),
    ensures
        a == b,
    decreases a.len(),
{
    if a.len() == 0 || b.len() == 0 {
        if a.len() > 0 {
            assert(covers(a, a[0].start as int));
            assert(covered(b).contains(a[0].start as int));
        }
        if b.len() > 0 {
            assert(covers(b, b[0].start as int));
            assert(covered(a).contains(b[0].start as int));
        }
        assert(a =~= b);
    } else {
        lemma_last_range_bounds(a, b);
        lemma_last_range_bounds(b, a);
        assert(a.last() == b.last());
        lemma_covered_push(a.drop_last(), a.last());
        lemma_covered_push(b.drop_last(), b.last());
        assert(a.drop_last().push(a.last()) == a);
        assert(b.drop_last().push(b.last()) == b);
        lemma_front_is_below(a);
        lemma_front_is_below(b);
        assert(covered(a.drop_last()) =~= covered(a).difference(a.last().indices()));
        assert(covered(b.drop_last()) =~= covered(b).difference(b.last().indices()));
        canonical_form_is_unique(a.drop_last(), b.drop_last());
    }
}

proof fn lemma_front_is_below(a: Seq<ChunkRange>)
    requires
        canonical(a),
        a.len() > 0,
    ensures
        forall|x: int| #[trigger] covered(a.drop_last()).contains(x) ==> x < a.last().start - 1,
{
    assert forall|x: int| #[trigger] covered(a.drop_last()).contains(x) implies x < a.last().start
        - 1 by {
        let front = a.drop_last();
        let k = choose|k: int|
            0 <= k < front.len() && (#[trigger] front[k]).start <= x < front[k].end;
        assert(a[k] == front[k]);
        assert(a[k].end < a[a.len() - 1].start);
    }
}

proof fn lemma_last_range_bounds(a: Seq<ChunkRange>, b: Seq<ChunkRange>)
    requires
        canonical(a),
        canonical(b),
        covered(a) == covered(b),
        a.len() > 0,
        b.len() > 0,
    ensures
        a.last().end <= b.last().end,
        a.last().start >= b.last().start,
{
    let x = a.last().end - 1;
    assert(covers(a, x)) by {
        assert(a[a.len() - 1].start <= x);
    }
    assert(covered(b).contains(x));
    let k = choose|k: int| 0 <= k < b.len() && (#[trigger] b[k]).start <= x < b[k].end;
    assert(k < b.len() - 1 ==> b[k].end < b[b.len() - 1].start);
    let y = b.last().end - 1;
    assert(covers(b, y)) by {
        assert(b[b.len() - 1].start <= y);
    }
    assert(covered(a).contains(y));
    let m = choose|m: int| 0 <= m < a.len() && (#[trigger] a[m]).start <= y < a[m].end;
    assert(m < a.len() - 1 ==> a[m].end < a[a.len() - 1].start);
    if a.last().start < b.last().start {
        let z = b.last().start - 1;
        assert(covers(a, z)) by {
            assert(a[a.len() - 1].start <= z < a[a.len() - 1].end);
        }
        assert(covered(b).contains(z));
        let n = choose|n: int| 0 <= n < b.len() && (#[trigger] b[n]).start <= z < b[n].end;
        assert(n < b.len() - 1 ==> b[n].end < b[b.len() - 1].start);
    }
}

/// What is there and what is missing make up the whole file, and no chunk is both.
pub proof fn missing_and_present_make_the_whole(set: Set<int>, missing: Set<int>, total: int)
    requires
        missing == set_int_range(0, total).difference(set),
    ensures
        missing.disjoint(set),
        missing.union(set.intersect(set_int_range(0, total))) == set_int_range(0, total),
        missing == Set::<int>::empty() <==> set_int_range(0, total).subset_of(set),
{
    assert(missing.union(set.intersect(set_int_range(0, total))) =~= set_int_range(0, total));
    if missing == Set::<int>::empty() {
        assert forall|x: int| set_int_range(0, total).contains(x) implies set.contains(x) by {
            assert(!missing.contains(x));
        }
    }
    if set_int_range(0, total).subset_of(set) {
        assert(missing =~= Set::<int>::empty());
    }
}

}

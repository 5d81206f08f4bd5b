//! The batch accumulator of one table key: it gathers the tables submitted
//! under the key and hands out a segment to write each time their estimated
//! size reaches the threshold, and the remainder when its input ends.
use crate::text::{decimal, push_decimal, push_str};
use vstd::prelude::*;

verus! {

/// The estimated size at which a batch is flushed: 750 MiB.
pub const FLUSH_THRESHOLD: u64 = 750 * 1024 * 1024;

/// The file of segment `index` of the stream at `location`:
/// `<location>_<index>.parquet`.
pub open spec fn segment_path(location: Seq<char>, index: nat) -> Seq<char> {
    location + "_"@ + decimal(index) + ".parquet"@
}

/// A batch of tables handed out to be written as one file.
pub struct Segment<T> {
    pub path: String,
    pub index: u64,
    pub tables: Vec<T>,
}

/// The state of an accumulator, as the laws below speak of it: the index of
/// the next segment, the tables held and their estimated size.
pub struct AccState<T> {
    pub index: nat,
    pub pending: Seq<T>,
    pub size: nat,
}

/// A sum of sizes, capped at the largest `u64`.
pub open spec fn capped_sum(a: nat, b: nat) -> nat {
    if a + b > u64::MAX {
        u64::MAX as nat
    } else {
        a + b
    }
}

/// Appending `table` of estimated size `size` with flush threshold
/// `threshold`: the new state, and the tables of the segment flushed, if
/// one is.
pub open spec fn step<T>(s: AccState<T>, table: T, size: nat, threshold: nat) -> (AccState<T>, Option<Seq<T>>) {
    let pending = s.pending.push(table);
    let total = capped_sum(s.size, size);
    if total >= threshold {
        (AccState { index: s.index + 1, pending: Seq::empty(), size: 0 }, Some(pending))
    } else {
        (AccState { index: s.index, pending, size: total }, None)
    }
}

/// Appending each of `items` (a table and its estimated size) in turn: the
/// final state, and the tables of each segment flushed, in order.
pub open spec fn run<T>(s: AccState<T>, items: Seq<(T, nat)>, threshold: nat) -> (AccState<T>, Seq<Seq<T>>)
    decreases items.len(),
{
    if items.len() == 0 {
        (s, Seq::empty())
    } else {
        let (s1, segs) = run(s, items.drop_last(), threshold);
        let (s2, out) = step(s1, items.last().0, items.last().1, threshold);
        match out {
            Some(seg) => (s2, segs.push(seg)),
            None => (s2, segs),
        }
    }
}

/// The tables of a sequence of segments, one after another.
pub open spec fn joined<T>(segs: Seq<Seq<T>>) -> Seq<T>
    decreases segs.len(),
{
    if segs.len() == 0 {
        Seq::empty()
    } else {
        joined(segs.drop_last()) + segs.last()
    }
}

/// The tables of a sequence of items.
pub open spec fn tables_of<T>(items: Seq<(T, nat)>) -> Seq<T> {
    items.map_values(|x: (T, nat)| x.0)
}

/// The tables of one key, gathered until a segment is due.
pub struct BatchAccumulator<T> {
    location: String,
    threshold: u64,
    index: u64,
    pending: Vec<T>,
    pending_size: u64,
}

impl<T> BatchAccumulator<T> {
    pub closed spec fn view(&self) -> AccState<T> {
        AccState { index: self.index as nat, pending: self.pending@, size: self.pending_size as nat }
    }

    pub closed spec fn location_view(&self) -> Seq<char> {
        self.location@
    }

    pub closed spec fn threshold_view(&self) -> nat {
        self.threshold as nat
    }

    /// An empty accumulator for the stream at `location`.
    pub fn new(location: String, threshold: u64) -> (r: Self)
        ensures
            r@ == (AccState::<T> { index: 0, pending: Seq::empty(), size: 0 }),
            r.location_view() == location@,
            r.threshold_view() == threshold,
    {
        BatchAccumulator { location, threshold, index: 0, pending: Vec::new(), pending_size: 0 }
    }

    /// The index of the next segment.
    pub fn index(&self) -> (r: u64)
        ensures
            r == self@.index,
    {
        self.index
    }

    fn segment(&self, tables: Vec<T>) -> (r: Segment<T>)
        ensures
            r.path@ == segment_path(self.location@, self.index as nat),
            r.index == self.index,
            r.tables == tables,
    {
        let mut path = self.location.clone();
        push_str(&mut path, "_");
        push_decimal(&mut path, self.index);
        push_str(&mut path, ".parquet");
        Segment { path, index: self.index, tables }
    }

    /// Appends `table`, whose estimated size is `size`. The size of the batch
    /// is the sum of the sizes of its tables (capped at the largest `u64`).
    /// Once it reaches the threshold, the batch leaves as the next segment and
    /// the accumulator starts a fresh, empty batch.
    pub fn push(&mut self, table: T, size: u64) -> (r: Option<Segment<T>>)
        requires
            old(self)@.index < u64::MAX,
        ensures
            final(self).location_view() == old(self).location_view(),
            final(self).threshold_view() == old(self).threshold_view(),
            ({
                let (s, out) = step(old(self)@, table, size as nat, old(self).threshold_view());
                &&& final(self)@ == s
                &&& match out {
                    Some(seg) => (r matches Some(g) && g.tables@ == seg && g.index == old(self)@.index
                        && g.path@ == segment_path(old(self).location_view(), old(self)@.index)),
                    None => r is None,
                }
            }),
    {
        self.pending.push(table);
        self.pending_size = if self.pending_size > u64::MAX - size {
            u64::MAX
        } else {
            self.pending_size + size
        };
        if self.pending_size >= self.threshold {
            let mut tables: Vec<T> = Vec::new();
            std::mem::swap(&mut self.pending, &mut tables);
            let seg = self.segment(tables);
            self.index = self.index + 1;
            self.pending_size = 0;
            Some(seg)
        } else {
            None
        }
    }

    /// Ends the input: what is left, if anything, leaves as the last segment.
    pub fn close(self) -> (r: Option<Segment<T>>)
        ensures
            self@.pending.len() == 0 ==> r is None,
            self@.pending.len() > 0 ==> (r matches Some(g) && g.tables@ == self@.pending && g.index
                == self@.index && g.path@ == segment_path(self.location_view(), self@.index)),
    {
        if self.pending.len() == 0 {
            None
        } else {
            let mut acc = self;
            let mut tables: Vec<T> = Vec::new();
            std::mem::swap(&mut acc.pending, &mut tables);
            Some(acc.segment(tables))
        }
    }
}

/// The capped sum of the sizes of `items`.
pub open spec fn total_size<T>(items: Seq<(T, nat)>) -> nat
    decreases items.len(),
{
    if items.len() == 0 {
        0
    } else {
        capped_sum(total_size(items.drop_last()), items.last().1)
    }
}

/// No table is lost or repeated across flushes: the segments flushed, one
/// after another, followed by the batch still held, are the tables held at
/// the start followed by every table appended, in order.
pub proof fn lemma_no_loss<T>(s: AccState<T>, items: Seq<(T, nat)>, threshold: nat)
    ensures
        joined(run(s, items, threshold).1) + run(s, items, threshold).0.pending == s.pending
            + tables_of(items),
        run(s, items, threshold).0.index == s.index + run(s, items, threshold).1.len(),
    decreases items.len(),
{
    if items.len() > 0 {
        let init = items.drop_last();
        lemma_no_loss(s, init, threshold);
        let (s1, segs) = run(s, init, threshold);
        let (t, z) = items.last();
        assert(tables_of(items) =~= tables_of(init).push(t));
        let (s2, out) = step(s1, t, z, threshold);
        assert(joined(segs) + s1.pending == s.pending + tables_of(init));
        match out {
            Some(seg) => {
                let segs2 = segs.push(seg);
                assert(run(s, items, threshold) == (s2, segs2));
                assert(seg == s1.pending.push(t));
                assert(segs2.drop_last() =~= segs);
                assert(joined(segs2) == joined(segs) + seg);
                assert(joined(segs) + s1.pending.push(t) =~= (joined(segs) + s1.pending).push(t));
                assert(joined(segs2) + s2.pending =~= joined(segs2));
                assert((s.pending + tables_of(init)).push(t) =~= s.pending + tables_of(items));
            },
            None => {
                assert(run(s, items, threshold) == (s2, segs));
                assert(s2.pending == s1.pending.push(t));
                assert(joined(segs) + s1.pending.push(t) =~= (joined(segs) + s1.pending).push(t));
                assert((s.pending + tables_of(init)).push(t) =~= s.pending + tables_of(items));
            },
        }
    }
}

/// While the sizes appended stay below the threshold, nothing is flushed:
/// the accumulator holds every table, so that closing it flushes them as
/// exactly one segment.
pub proof fn lemma_below_threshold<T>(s: AccState<T>, items: Seq<(T, nat)>, threshold: nat)
    requires
        s.pending.len() == 0,
        s.size == 0,
        total_size(items) < threshold,
    ensures
        run(s, items, threshold).1.len() == 0,
        run(s, items, threshold).0.pending == tables_of(items),
        run(s, items, threshold).0.size == total_size(items),
        run(s, items, threshold).0.index == s.index,
    decreases items.len(),
{
    if items.len() > 0 {
        let init = items.drop_last();
        assert(total_size(init) <= total_size(items));
        lemma_below_threshold(s, init, threshold);
        assert(tables_of(items) =~= tables_of(init).push(items.last().0));
    }
}

/// An append that brings the batch to the threshold flushes at once every
/// table held with the one appended, and the next append starts a fresh
/// batch that holds only its own table.
pub proof fn lemma_crossing_flushes<T>(s: AccState<T>, t: T, z: nat, t2: T, z2: nat, threshold: nat)
    requires
        capped_sum(s.size, z) >= threshold,
    ensures
        step(s, t, z, threshold).1 == Some(s.pending.push(t)),
        step(s, t, z, threshold).0.pending.len() == 0,
        step(s, t, z, threshold).0.size == 0,
        step(s, t, z, threshold).0.index == s.index + 1,
        ({
            let (s2, out2) = step(step(s, t, z, threshold).0, t2, z2, threshold);
            match out2 {
                Some(seg) => seg == seq![t2] && s2.pending.len() == 0,
                None => s2.pending == seq![t2],
            }
        }),
{
    let s1 = step(s, t, z, threshold).0;
    assert(s1.pending.push(t2) =~= seq![t2]);
}

} // verus!

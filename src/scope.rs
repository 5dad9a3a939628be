//! The inbound sample stream: the firmware writes samples round a ring in
//! target memory, and the host drains what is new at each poll into a
//! bounded window of the most recent samples.
use vstd::prelude::*;
use vstd::arithmetic::div_mod::{
    lemma_fundamental_div_mod, lemma_mod_multiples_vanish, lemma_small_mod,
};
use crate::records::OscilloscopeSamplePoint;

verus! {

/// Number of samples the host keeps.
pub const MAX_SAMPLES: usize = 10_000;

/// The slots to read at one poll, and where the next poll starts.
#[derive(Clone, Copy, Debug, PartialEq, Eq, Structural)]
pub struct DrainRegion {
    pub start: u32,
    pub count: u32,
    pub next_last: u32,
}

/// Whether the tracked index and the firmware's index are both slots of a
/// ring of `capacity` samples.
pub open spec fn indices_ok(last_index: u32, index: u32, capacity: u32) -> bool {
    last_index < capacity && index < capacity
}

/// What to drain when the host last stopped at `last_index` and the
/// firmware now writes at `index`: up to `index`, or, when the firmware has
/// wrapped, up to the end of the ring, the rest coming at the next poll.
pub open spec fn region_of(last_index: u32, index: u32, capacity: u32) -> DrainRegion {
    if index >= last_index {
        DrainRegion { start: last_index, count: (index - last_index) as u32, next_last: index }
    } else {
        DrainRegion { start: last_index, count: (capacity - last_index) as u32, next_last: 0 }
    }
}

/// The slots to read at this poll; `None` when an index lies outside the
/// ring, so that the header cannot be trusted.
pub fn drain_region(last_index: u32, index: u32, capacity: u32) -> (r: Option<DrainRegion>)
    ensures
        r.is_some() <==> indices_ok(last_index, index, capacity),
        r.is_some() ==> r.unwrap() == region_of(last_index, index, capacity),
{
    if last_index >= capacity || index >= capacity {
        return None;
    }
    if index >= last_index {
        Some(DrainRegion { start: last_index, count: index - last_index, next_last: index })
    } else {
        Some(DrainRegion { start: last_index, count: capacity - last_index, next_last: 0 })
    }
}

/// One poll drains the next samples in production order. The host has
/// drained `drained` samples and tracks `last_index == drained % L`; the
/// firmware has produced `produced` samples, less than one ring ahead, and
/// writes next at `produced % L`. The region read holds samples `drained`,
/// `drained + 1`, ... in that order (sample `j` lies in slot `j % L`), and
/// afterwards the same holds of the new count and index, so the next poll
/// goes on where this one stopped.
pub proof fn lemma_drain_step(capacity: u32, drained: nat, produced: nat)
    requires
        capacity > 0,
        drained <= produced,
        produced - drained < capacity,
    ensures
        ({
            let r = region_of(
                (drained % (capacity as nat)) as u32,
                (produced % (capacity as nat)) as u32,
                capacity,
            );
            &&& forall|i: int|
                0 <= i < r.count ==> #[trigger] (r.start + i) == (drained + i) % (capacity as int)
            &&& drained + r.count <= produced
            &&& r.next_last == (drained + r.count) % (capacity as int)
            &&& (drained < produced ==> r.count > 0)
        }),
{
    let l = capacity as int;
    let d = drained as int;
    let p = produced as int;
    let ld = d % l;
    let lp = p % l;
    assert(d == l * (d / l) + ld) by {
        lemma_fundamental_div_mod(d, l);
    }
    assert(p == l * (p / l) + lp) by {
        lemma_fundamental_div_mod(p, l);
    }
    let r = region_of(ld as u32, lp as u32, capacity);
    if lp >= ld {
        // Same lap: p - d == lp - ld.
        assert(p / l == d / l) by (nonlinear_arith)
            requires
                d == l * (d / l) + ld,
                p == l * (p / l) + lp,
                0 <= ld <= lp < l,
                0 <= p - d < l,
        ;
        assert forall|i: int| 0 <= i < r.count implies #[trigger] (r.start + i) == (d + i) % l by {
            assert(d + i == l * (d / l) + (ld + i));
            lemma_mod_multiples_vanish(d / l, ld + i, l);
            lemma_small_mod((ld + i) as nat, l as nat);
        }
        assert(d + r.count == p);
    } else {
        // The firmware wrapped: the region ends at the next multiple of L.
        assert(p / l == d / l + 1) by (nonlinear_arith)
            requires
                d == l * (d / l) + ld,
                p == l * (p / l) + lp,
                0 <= lp < ld < l,
                0 <= p - d < l,
        ;
        assert forall|i: int| 0 <= i < r.count implies #[trigger] (r.start + i) == (d + i) % l by {
            assert(d + i == l * (d / l) + (ld + i));
            lemma_mod_multiples_vanish(d / l, ld + i, l);
            lemma_small_mod((ld + i) as nat, l as nat);
        }
        assert(d + r.count == l * (d / l) + l);
        assert((l * (d / l) + l) % l == 0) by {
            lemma_mod_multiples_vanish(d / l + 1, 0, l);
            assert(l * (d / l + 1) == l * (d / l) + l) by (nonlinear_arith);
        }
        assert(d + r.count <= p) by (nonlinear_arith)
            requires
                p == l * (p / l) + lp,
                p / l == d / l + 1,
                lp >= 0,
                d + r.count == l * (d / l) + l,
        ;
    }
    if lp >= ld {
        lemma_small_mod(lp as nat, l as nat);
    }
}

/// Sample numbers drained over a run of polls. The host starts having
/// drained `drained` samples; at poll `t` the firmware has produced
/// `produced[t]` in all.
pub open spec fn drained_over(capacity: u32, drained: nat, produced: Seq<nat>) -> Seq<int>
    decreases produced.len(),
{
    if produced.len() == 0 || capacity == 0 {
        Seq::empty()
    } else {
        let r = region_of(
            (drained % (capacity as nat)) as u32,
            (produced[0] % (capacity as nat)) as u32,
            capacity,
        );
        Seq::new(r.count as nat, |i: int| drained + i) + drained_over(
            capacity,
            (drained + r.count) as nat,
            produced.drop_first(),
        )
    }
}

/// The host's drained count after a run of polls.
pub open spec fn drained_after(capacity: u32, drained: nat, produced: Seq<nat>) -> nat
    decreases produced.len(),
{
    if produced.len() == 0 || capacity == 0 {
        drained
    } else {
        let r = region_of(
            (drained % (capacity as nat)) as u32,
            (produced[0] % (capacity as nat)) as u32,
            capacity,
        );
        drained_after(capacity, (drained + r.count) as nat, produced.drop_first())
    }
}

/// Whether, at every poll of the run, the firmware is at most one ring
/// ahead of what the host has drained: it has wrapped at most once since.
pub open spec fn never_lapped(capacity: u32, drained: nat, produced: Seq<nat>) -> bool
    decreases produced.len(),
{
    if produced.len() == 0 || capacity == 0 {
        true
    } else {
        let r = region_of(
            (drained % (capacity as nat)) as u32,
            (produced[0] % (capacity as nat)) as u32,
            capacity,
        );
        &&& drained <= produced[0]
        &&& produced[0] - drained < capacity
        &&& never_lapped(capacity, (drained + r.count) as nat, produced.drop_first())
    }
}

/// Over any run of polls in which the firmware never laps the host, the
/// host drains every sample exactly once and in production order: the
/// drained sample numbers are `drained, drained + 1, ...` without gap or
/// repeat, up to at most what was produced.
pub proof fn lemma_drain_run(capacity: u32, drained: nat, produced: Seq<nat>)
    requires
        capacity > 0,
        never_lapped(capacity, drained, produced),
    ensures
        drained_after(capacity, drained, produced) >= drained,
        drained_over(capacity, drained, produced) == Seq::new(
            (drained_after(capacity, drained, produced) - drained) as nat,
            |i: int| drained + i,
        ),
        produced.len() > 0 ==> drained_after(capacity, drained, produced) <= produced.last(),
    decreases produced.len(),
{
    if produced.len() > 0 {
        let r = region_of(
            (drained % (capacity as nat)) as u32,
            (produced[0] % (capacity as nat)) as u32,
            capacity,
        );
        lemma_drain_step(capacity, drained, produced[0]);
        let next = (drained + r.count) as nat;
        let rest = produced.drop_first();
        lemma_drain_run(capacity, next, rest);
        let end = drained_after(capacity, next, rest);
        assert(drained_over(capacity, drained, produced) =~= Seq::new(
            (end - drained) as nat,
            |i: int| drained + i,
        ));
        if rest.len() > 0 {
            assert(rest.last() == produced.last());
        } else {
            assert(produced.last() == produced[0]);
        }
    }
}

/// The last `max` items of `s`, or all of them when there are fewer.
pub open spec fn keep_last<T>(s: Seq<T>, max: nat) -> Seq<T> {
    if s.len() > max {
        s.subrange(s.len() - max, s.len() as int)
    } else {
        s
    }
}

/// A window of the most recent samples, oldest first, never longer than
/// its bound.
pub struct SampleWindow {
    samples: Vec<OscilloscopeSamplePoint>,
    max_len: usize,
}

impl View for SampleWindow {
    type V = Seq<OscilloscopeSamplePoint>;

    closed spec fn view(&self) -> Seq<OscilloscopeSamplePoint> {
        self.samples@
    }
}

impl SampleWindow {
    pub closed spec fn bound(&self) -> nat {
        self.max_len as nat
    }

    pub closed spec fn wf(&self) -> bool {
        self.samples@.len() <= self.max_len
    }

    /// An empty window that keeps at most `max_len` samples.
    pub fn new(max_len: usize) -> (r: SampleWindow)
        ensures
            r.wf(),
            r@ == Seq::<OscilloscopeSamplePoint>::empty(),
            r.bound() == max_len,
    {
        SampleWindow { samples: Vec::new(), max_len }
    }

    /// An empty window that keeps `MAX_SAMPLES` samples.
    pub fn with_default_bound() -> (r: SampleWindow)
        ensures
            r.wf(),
            r@ == Seq::<OscilloscopeSamplePoint>::empty(),
            r.bound() == MAX_SAMPLES,
    {
        SampleWindow::new(MAX_SAMPLES)
    }

    /// Appends `items` after what the window holds and drops the oldest
    /// samples beyond the bound.
    pub fn append(&mut self, items: &[OscilloscopeSamplePoint])
        requires
            old(self).wf(),
        ensures
            final(self).wf(),
            final(self).bound() == old(self).bound(),
            final(self)@ == keep_last(old(self)@ + items@, old(self).bound()),
    {
        let max = self.max_len;
        let n = items.len();
        let mut out: Vec<OscilloscopeSamplePoint> = Vec::new();
        let ghost all = self.samples@ + items@;
        if n >= max {
            let mut k: usize = n - max;
            while k < n
                invariant
                    n == items@.len(),
                    n >= max,
                    n - max <= k <= n,
                    out@ == items@.subrange(n - max, k as int),
                decreases n - k,
            {
                out.push(items[k]);
                assert(out@ =~= items@.subrange(n - max, k + 1));
                k = k + 1;
            }
            assert(out@ =~= keep_last(all, max as nat));
        } else {
            let old_len = self.samples.len();
            let keep = if old_len < max - n {
                old_len
            } else {
                max - n
            };
            let mut k: usize = old_len - keep;
            while k < old_len
                invariant
                    old_len == self.samples@.len(),
                    keep <= old_len,
                    old_len - keep <= k <= old_len,
                    out@ == self.samples@.subrange(old_len - keep, k as int),
                decreases old_len - k,
            {
                out.push(self.samples[k]);
                assert(out@ =~= self.samples@.subrange(old_len - keep, k + 1));
                k = k + 1;
            }
            let mut j: usize = 0;
            while j < n
                invariant
                    n == items@.len(),
                    old_len == self.samples@.len(),
                    keep <= old_len,
                    out@ == self.samples@.subrange(old_len - keep, old_len as int)
                        + items@.take(j as int),
                    j <= n,
                decreases n - j,
            {
                out.push(items[j]);
                assert(out@ =~= self.samples@.subrange(old_len - keep, old_len as int)
                    + items@.take(j + 1));
                j = j + 1;
            }
            assert(items@.take(n as int) =~= items@);
            assert(out@ =~= keep_last(all, max as nat));
        }
        self.samples = out;
    }

    /// The samples, oldest first.
    pub fn samples(&self) -> (r: &Vec<OscilloscopeSamplePoint>)
        ensures
            r@ == self@,
    {
        &self.samples
    }

    pub fn len(&self) -> (r: usize)
        ensures
            r == self@.len(),
    {
        self.samples.len()
    }

    /// Empties the window.
    pub fn clear(&mut self)
        ensures
            final(self)@ == Seq::<OscilloscopeSamplePoint>::empty(),
            final(self).bound() == old(self).bound(),
            final(self).wf(),
    {
        self.samples = Vec::new();
    }
}

/// The window's contents after appending the samples of `s` one at a time
/// to a window holding `w`.
pub open spec fn append_each(
    w: Seq<OscilloscopeSamplePoint>,
    s: Seq<OscilloscopeSamplePoint>,
    max: nat,
) -> Seq<OscilloscopeSamplePoint>
    decreases s.len(),
{
    if s.len() == 0 {
        w
    } else {
        keep_last(append_each(w, s.drop_last(), max).push(s.last()), max)
    }
}

/// Trimming before appending trims nothing that trimming after would keep.
pub proof fn lemma_keep_last_append<T>(a: Seq<T>, b: Seq<T>, max: nat)
    ensures
        keep_last(keep_last(a, max) + b, max) == keep_last(a + b, max),
{
    assert(keep_last(keep_last(a, max) + b, max) =~= keep_last(a + b, max));
}

/// Appending samples one at a time to an empty window leaves in it exactly
/// the most recent `max` of them, oldest first (all of them while there are
/// no more than `max`).
pub proof fn lemma_window_one_at_a_time(s: Seq<OscilloscopeSamplePoint>, max: nat)
    ensures
        append_each(Seq::empty(), s, max) == keep_last(s, max),
        s.len() > max ==> append_each(Seq::empty(), s, max) == s.subrange(
            s.len() - max,
            s.len() as int,
        ),
    decreases s.len(),
{
    if s.len() > 0 {
        lemma_window_one_at_a_time(s.drop_last(), max);
        lemma_keep_last_append(s.drop_last(), seq![s.last()], max);
        assert(s.drop_last() + seq![s.last()] =~= s);
        assert(keep_last(s.drop_last(), max).push(s.last()) =~= keep_last(s.drop_last(), max)
            + seq![s.last()]);
    }
}

} // verus!

//! The skip schedule of the transient scanner.
//!
//! The scanner walks through a song's samples. For each examined sample the
//! caller decides, from the sample and the short-time power around it, whether
//! it is a transient, and if so with what intensity. The scanner records each
//! transient in the rhythm as two entries, the distance in samples from the
//! previous transient and the intensity, then skips the `SKIP_AMT` samples that
//! follow, since no transient is expected there, and tells the caller which
//! samples to refill its power window of `AVG_LEN` samples from.

use vstd::prelude::*;

verus! {

/// Number of samples the short-time power is taken over.
pub const AVG_LEN: usize = 768;

/// Number of samples skipped after a transient.
pub const SKIP_AMT: usize = 4096;

/// What the caller does after a sample was examined.
pub enum ScanStep {
    /// Push the next sample's power into the window, dropping the oldest one.
    Slide,
    /// A transient was recorded. Refill the power window with `zeros` zero
    /// powers followed by the powers of the samples from `start` up to `end`,
    /// `end` excluded, and go on with the sample after `end`.
    Refill { zeros: usize, start: usize, end: usize },
    /// A transient was recorded and the skip ran past the last sample.
    Done,
}

/// The state of a scan, as plain values.
pub struct ScanView {
    /// Number of samples of the song.
    pub len: usize,
    /// Index of the next sample to examine.
    pub next: usize,
    /// Whether a skip ran past the last sample.
    pub finished: bool,
    /// Samples counted since the last transient.
    pub gap: usize,
    /// Number of transients recorded.
    pub count: usize,
    /// Two entries per transient: its distance entry and its intensity.
    pub rhythm: Seq<i32>,
    /// Sample index of each recorded transient.
    pub hits: Seq<int>,
}

/// The distance entry recorded for a transient after `gap` counted samples:
/// the count, taken modulo 2^32 as a signed 32-bit integer, plus one, wrapping
/// round to the smallest entry after the largest.
pub open spec fn gap_entry(gap: usize) -> i32 {
    let g = #[verifier::truncate] (gap as i32);
    if g == i32::MAX {
        i32::MIN
    } else {
        (g + 1) as i32
    }
}

/// Sample index of the transient before the `k`-th one, or -1 before the first.
pub open spec fn prev_hit(hits: Seq<int>, k: int) -> int {
    if k == 0 {
        -1
    } else {
        hits[k - 1]
    }
}

/// Where the window refill after a transient starts, and how many zero powers pad it.
pub open spec fn refill(end: usize) -> ScanStep {
    if end < AVG_LEN {
        ScanStep::Refill { zeros: (AVG_LEN - end) as usize, start: 0, end }
    } else {
        ScanStep::Refill { zeros: 0, start: (end - AVG_LEN) as usize, end }
    }
}

/// A refilled window always holds `AVG_LEN` powers: zero padding, then the
/// powers of the samples just before `end`.
pub proof fn lemma_refill_window(end: usize)
    ensures
        refill(end) matches ScanStep::Refill { zeros, start, end: e } && {
            &&& e == end
            &&& start <= end
            &&& zeros + (end - start) == AVG_LEN
            &&& (zeros > 0 ==> start == 0)
        },
{
}

impl ScanView {
    /// The state in which a scan of `len` samples starts.
    pub open spec fn initial(len: usize) -> ScanView {
        ScanView {
            len,
            next: 0,
            finished: false,
            gap: 0,
            count: 0,
            rhythm: Seq::empty(),
            hits: Seq::empty(),
        }
    }

    /// A sample is waiting to be examined.
    pub open spec fn pending(self) -> bool {
        !self.finished && self.next < self.len
    }

    /// What every reachable state of a scan satisfies.
    pub open spec fn wf(self) -> bool {
        &&& self.len + SKIP_AMT + 2 <= usize::MAX
        &&& self.next <= self.len
        &&& self.finished ==> self.next == self.len
        &&& self.count <= self.next
        &&& self.rhythm.len() == 2 * self.count
        &&& self.hits.len() == self.count
        &&& forall|k: int| 0 <= k < self.count ==> 0 <= #[trigger] self.hits[k] < self.len
        &&& forall|k: int|
            0 < k < self.count ==> #[trigger] self.hits[k] >= self.hits[k - 1] + SKIP_AMT + 2
        &&& forall|k: int|
            0 <= k < self.count ==> #[trigger] self.rhythm[2 * k] == gap_entry(
                (self.hits[k] - prev_hit(self.hits, k) - 1) as usize,
            )
        &&& !self.finished ==> self.gap == self.next - prev_hit(self.hits, self.count as int) - 1
        &&& !self.finished && self.count > 0 ==> self.gap >= SKIP_AMT + 1
    }

    /// The state after the pending sample was examined, and what the caller
    /// does next: on no transient the scan moves on by one sample; on a
    /// transient of intensity `level` it records the distance entry and the
    /// level, and passes over the next `SKIP_AMT + 1` samples: none of them is
    /// examined, the window is refilled from the `AVG_LEN` samples before the
    /// last of them, and the scan goes on with the sample after it.
    pub open spec fn step(self, hit: bool, level: i32) -> (ScanView, ScanStep) {
        if !hit {
            (ScanView { next: (self.next + 1) as usize, gap: (self.gap + 1) as usize, ..self }, ScanStep::Slide)
        } else {
            let rhythm = self.rhythm.push(gap_entry(self.gap)).push(level);
            let hits = self.hits.push(self.next as int);
            let count = (self.count + 1) as usize;
            let end = self.next + SKIP_AMT + 1;
            if end >= self.len {
                (
                    ScanView {
                        next: self.len,
                        finished: true,
                        gap: SKIP_AMT,
                        count,
                        rhythm,
                        hits,
                        ..self
                    },
                    ScanStep::Done,
                )
            } else {
                (
                    ScanView {
                        next: (end + 1) as usize,
                        gap: (SKIP_AMT + 1) as usize,
                        count,
                        rhythm,
                        hits,
                        ..self
                    },
                    refill(end as usize),
                )
            }
        }
    }
}

/// A transient keeps the recorded layout: each distance entry matches the
/// spacing of the transients, and transients stay apart by more than the skip.
proof fn lemma_record_keeps_layout(v: ScanView, level: i32)
    requires
        v.wf(),
        v.pending(),
    ensures
        ({
            let rhythm = v.rhythm.push(gap_entry(v.gap)).push(level);
            let hits = v.hits.push(v.next as int);
            let count = v.count + 1;
            &&& rhythm.len() == 2 * count
            &&& hits.len() == count
            &&& forall|k: int| 0 <= k < count ==> 0 <= #[trigger] hits[k] < v.len
            &&& forall|k: int| 0 < k < count ==> #[trigger] hits[k] >= hits[k - 1] + SKIP_AMT + 2
            &&& forall|k: int|
                0 <= k < count ==> #[trigger] rhythm[2 * k] == gap_entry(
                    (hits[k] - prev_hit(hits, k) - 1) as usize,
                )
        }),
{
    let rhythm = v.rhythm.push(gap_entry(v.gap)).push(level);
    let hits = v.hits.push(v.next as int);
    let count = v.count + 1;
    assert forall|k: int| 0 <= k < count implies #[trigger] rhythm[2 * k] == gap_entry(
        (hits[k] - prev_hit(hits, k) - 1) as usize,
    ) by {
        if k < v.count {
            assert(rhythm[2 * k] == v.rhythm[2 * k]);
            assert(hits[k] == v.hits[k]);
            assert(prev_hit(hits, k) == prev_hit(v.hits, k));
        } else {
            assert(rhythm[2 * k] == gap_entry(v.gap));
            assert(prev_hit(hits, k) == prev_hit(v.hits, v.count as int));
        }
    }
    assert forall|k: int| 0 < k < count implies #[trigger] hits[k] >= hits[k - 1] + SKIP_AMT + 2 by {
        if k == v.count {
            assert(hits[k - 1] == prev_hit(v.hits, v.count as int));
        } else {
            assert(hits[k] == v.hits[k]);
        }
    }
    assert forall|k: int| 0 <= k < count implies 0 <= #[trigger] hits[k] < v.len by {
        if k < v.count {
            assert(hits[k] == v.hits[k]);
        }
    }
}

proof fn lemma_slide_keeps_wf(v: ScanView)
    requires
        v.wf(),
        v.pending(),
    ensures
        v.step(false, 0).0.wf(),
{
    let w = v.step(false, 0).0;
    assert(w.hits == v.hits);
    assert(w.rhythm == v.rhythm);
}

proof fn lemma_hit_keeps_wf(v: ScanView, level: i32)
    requires
        v.wf(),
        v.pending(),
    ensures
        v.step(true, level).0.wf(),
{
    lemma_record_keeps_layout(v, level);
    let w = v.step(true, level).0;
    assert(w.hits == v.hits.push(v.next as int));
    assert(w.rhythm == v.rhythm.push(gap_entry(v.gap)).push(level));
    assert(prev_hit(w.hits, w.count as int) == v.next);
}

/// Every step of a scan keeps what every reachable state satisfies.
pub proof fn lemma_step_keeps_wf(v: ScanView, hit: bool, level: i32)
    requires
        v.wf(),
        v.pending(),
    ensures
        v.step(hit, level).0.wf(),
{
    if hit {
        lemma_hit_keeps_wf(v, level);
    } else {
        lemma_slide_keeps_wf(v);
        assert(v.step(hit, level) == v.step(false, 0));
    }
}

/// After a transient the refilled window holds only samples from after the
/// transient, since the skip is longer than the window.
pub proof fn lemma_refill_after_transient(v: ScanView, level: i32)
    requires
        v.wf(),
        v.pending(),
    ensures
        v.step(true, level).1 matches ScanStep::Refill { zeros, start, end } ==> {
            &&& zeros == 0
            &&& v.next < start
            &&& end == v.next + SKIP_AMT + 1
            &&& v.step(true, level).0.next == end + 1
        },
{
}

impl ScanView {
    /// The state after `n` more samples were examined, none of them a transient.
    pub open spec fn run_quiet(self, n: nat) -> ScanView
        decreases n,
    {
        if n == 0 {
            self
        } else {
            self.run_quiet((n - 1) as nat).step(false, 0).0
        }
    }
}

/// A song without transients has an empty rhythm: examining its samples one
/// after the other records nothing and counts every sample.
pub proof fn lemma_quiet_song_has_empty_rhythm(len: usize, n: nat)
    requires
        len + SKIP_AMT + 2 <= usize::MAX,
        n <= len,
    ensures
        ScanView::initial(len).run_quiet(n).rhythm == Seq::<i32>::empty(),
        ScanView::initial(len).run_quiet(n).count == 0,
        ScanView::initial(len).run_quiet(n).next == n,
        ScanView::initial(len).run_quiet(n).gap == n,
        !ScanView::initial(len).run_quiet(n).finished,
    decreases n,
{
    if n > 0 {
        lemma_quiet_song_has_empty_rhythm(len, (n - 1) as nat);
    }
}

/// A transient on the very first sample is recorded with the distance entry
/// 1 and its intensity.
pub proof fn lemma_first_sample_transient(len: usize, level: i32)
    requires
        1 <= len,
        len + SKIP_AMT + 2 <= usize::MAX,
    ensures
        ScanView::initial(len).step(true, level).0.rhythm == seq![1i32, level],
        ScanView::initial(len).step(true, level).0.hits == seq![0int],
{
    assert(gap_entry(0) == 1) by {
        lemma_gap_entry_exact(0);
    }
    assert(ScanView::initial(len).step(true, level).0.rhythm =~= seq![1i32, level]);
    assert(ScanView::initial(len).step(true, level).0.hits =~= seq![0int]);
}

/// What one step does to the rhythm, from any reachable state: a sample that
/// is no transient leaves the rhythm alone and the scan moves on to the next
/// sample; a transient appends exactly two entries, its distance from the
/// previous transient (or from before the first sample) and the intensity
/// given for it, and the scan next examines a sample at least `SKIP_AMT + 2`
/// further on, or ends.
pub proof fn lemma_step_records_transient(v: ScanView, hit: bool, level: i32)
    requires
        v.wf(),
        v.pending(),
    ensures
        !hit ==> v.step(hit, level).0.rhythm == v.rhythm,
        !hit ==> v.step(hit, level).0.next == v.next + 1,
        !hit ==> v.step(hit, level).1 == ScanStep::Slide,
        hit ==> v.step(hit, level).0.rhythm.len() == v.rhythm.len() + 2,
        hit ==> v.step(hit, level).0.rhythm.subrange(0, v.rhythm.len() as int) == v.rhythm,
        hit ==> v.step(hit, level).0.rhythm.last() == level,
        hit ==> v.step(hit, level).0.count == v.count + 1,
        hit && v.next - prev_hit(v.hits, v.count as int) <= i32::MAX ==> v.step(
            hit,
            level,
        ).0.rhythm[v.rhythm.len() as int] == v.next - prev_hit(v.hits, v.count as int),
        hit ==> v.step(hit, level).0.finished || v.step(hit, level).0.next >= v.next + SKIP_AMT
            + 2,
        hit ==> (v.step(hit, level).1 == ScanStep::Done <==> v.next + SKIP_AMT + 1 >= v.len),
        hit && v.next + SKIP_AMT + 1 >= v.len ==> v.step(hit, level).0.finished,
        hit && v.next + SKIP_AMT + 1 < v.len ==> v.step(hit, level).1 == (ScanStep::Refill {
            zeros: 0,
            start: (v.next + SKIP_AMT + 1 - AVG_LEN) as usize,
            end: (v.next + SKIP_AMT + 1) as usize,
        }) && v.step(hit, level).0.next == v.next + SKIP_AMT + 2 && !v.step(hit, level).0.finished,
{
    if hit {
        let w = v.step(hit, level).0;
        assert(w.rhythm.subrange(0, v.rhythm.len() as int) =~= v.rhythm);
        if v.next - prev_hit(v.hits, v.count as int) <= i32::MAX {
            lemma_gap_entry_exact(v.gap);
        }
    }
}

/// Sum of the distance entries of the first `k` transients of a rhythm.
pub open spec fn elapsed(rhythm: Seq<i32>, k: nat) -> int
    decreases k,
{
    if k == 0 {
        0
    } else {
        elapsed(rhythm, (k - 1) as nat) + rhythm[2 * (k - 1)]
    }
}

proof fn lemma_gap_entry_exact(g: usize)
    requires
        g < 0x7fff_ffff,
    ensures
        gap_entry(g) == g + 1,
{
    assert(g < 0x7fff_ffff ==> (g as i32) == g) by (bit_vector);
}

/// The distance entries locate the transients: adding up the entries of the
/// first `k` transients gives the sample index of the `k`-th one plus one, so
/// counting samples from the start of the song reaches each transient. This
/// holds for songs of at most 2^31 - 1 samples, whose distances fit the entries.
pub proof fn lemma_distances_locate_transients(v: ScanView, k: nat)
    requires
        v.wf(),
        v.len <= 0x7fff_ffff,
        k <= v.count,
    ensures
        elapsed(v.rhythm, k) == prev_hit(v.hits, k as int) + 1,
    decreases k,
{
    if k > 0 {
        lemma_distances_locate_transients(v, (k - 1) as nat);
        let i = k - 1;
        assert(v.rhythm[2 * i] == gap_entry((v.hits[i] - prev_hit(v.hits, i) - 1) as usize));
        assert(0 <= v.hits[i] < v.len);
        if i > 0 {
            assert(v.hits[i] >= v.hits[i - 1] + SKIP_AMT + 2);
        }
        lemma_gap_entry_exact((v.hits[i] - prev_hit(v.hits, i) - 1) as usize);
    }
}

/// A scan through the samples of one song.
pub struct TransientScan {
    len: usize,
    next: usize,
    finished: bool,
    transient_gap: usize,
    transient_no: usize,
    rhythm: Vec<i32>,
    hits: Ghost<Seq<int>>,
}

impl View for TransientScan {
    type V = ScanView;

    closed spec fn view(&self) -> ScanView {
        ScanView {
            len: self.len,
            next: self.next,
            finished: self.finished,
            gap: self.transient_gap,
            count: self.transient_no,
            rhythm: self.rhythm@,
            hits: self.hits@,
        }
    }
}

impl TransientScan {
    /// Starts a scan of `len` samples with an empty rhythm.
    pub fn new(len: usize) -> (scan: TransientScan)
        requires
            len + SKIP_AMT + 2 <= usize::MAX,
        ensures
            scan@ == ScanView::initial(len),
            scan@.wf(),
    {
        TransientScan {
            len,
            next: 0,
            finished: false,
            transient_gap: 0,
            transient_no: 0,
            rhythm: Vec::new(),
            hits: Ghost(Seq::empty()),
        }
    }

    /// The index of the sample to examine next, if any is left.
    pub fn next_sample(&self) -> (index: Option<usize>)
        ensures
            index == (if self@.pending() {
                Some(self@.next)
            } else {
                None::<usize>
            }),
    {
        if !self.finished && self.next < self.len {
            Some(self.next)
        } else {
            None
        }
    }

    /// Records the outcome for the pending sample: whether it is a transient,
    /// and if so its intensity.
    pub fn step(&mut self, hit: bool, level: i32) -> (action: ScanStep)
        requires
            old(self)@.wf(),
            old(self)@.pending(),
        ensures
            (final(self)@, action) == old(self)@.step(hit, level),
            final(self)@.wf(),
    {
        proof {
            lemma_step_keeps_wf(self@, hit, level);
        }
        if !hit {
            self.next = self.next + 1;
            self.transient_gap = self.transient_gap + 1;
            return ScanStep::Slide;
        }
        let entry = (#[verifier::truncate] (self.transient_gap as i32)).wrapping_add(1);
        self.rhythm.push(entry);
        self.rhythm.push(level);
        self.hits = Ghost(self.hits@.push(self.next as int));
        self.transient_no = self.transient_no + 1;
        self.transient_gap = SKIP_AMT;
        let end = self.next + SKIP_AMT + 1;
        if end >= self.len {
            self.next = self.len;
            self.finished = true;
            return ScanStep::Done;
        }
        self.next = end + 1;
        self.transient_gap = self.transient_gap + 1;
        if end < AVG_LEN {
            ScanStep::Refill { zeros: AVG_LEN - end, start: 0, end }
        } else {
            ScanStep::Refill { zeros: 0, start: end - AVG_LEN, end }
        }
    }

    /// Number of transients recorded so far.
    pub fn transient_no(&self) -> (count: usize)
        ensures
            count == self@.count,
    {
        self.transient_no
    }

    /// Samples counted since the last transient.
    pub fn transient_gap(&self) -> (gap: usize)
        ensures
            gap == self@.gap,
    {
        self.transient_gap
    }

    /// The rhythm recorded so far.
    pub fn rhythm(&self) -> (rhythm: &Vec<i32>)
        ensures
            rhythm@ == self@.rhythm,
    {
        &self.rhythm
    }

    /// Ends the scan and hands over its rhythm.
    pub fn into_rhythm(self) -> (rhythm: Vec<i32>)
        ensures
            rhythm@ == self@.rhythm,
    {
        self.rhythm
    }
}

} // verus!

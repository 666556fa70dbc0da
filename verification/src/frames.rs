//! The frames a song's tempo is estimated from: the spans between
//! consecutive transients, each of which gives one tempo estimate.

use vstd::prelude::*;

verus! {

/// The distance entries of all transients but the first, whose distance is
/// counted from the start of the song: the rhythm entries at index 2, 4, 6 and so on.
pub open spec fn spec_frame_distances(rhythm: Seq<i32>) -> Seq<i32> {
    Seq::new(
        if rhythm.len() / 2 >= 1 {
            (rhythm.len() / 2 - 1) as nat
        } else {
            0
        },
        |i: int| rhythm[2 * (i + 1)],
    )
}

/// The distance entries of all transients but the first.
pub fn frame_distances(rhythm: &[i32]) -> (distances: Vec<i32>)
    ensures
        distances@ == spec_frame_distances(rhythm@),
{
    let mut distances: Vec<i32> = Vec::new();
    let half = rhythm.len() / 2;
    let mut i: usize = 1;
    while i < half
        invariant
            half == rhythm@.len() / 2,
            rhythm@.len() == rhythm.len(),
            1 <= i,
            i <= half || i == 1,
            distances@ =~= spec_frame_distances(rhythm@).take((i - 1) as int),
        decreases half - i,
    {
        assert(i * 2 < rhythm@.len());
        distances.push(rhythm[i * 2]);
        i = i + 1;
    }
    assert(distances@ =~= spec_frame_distances(rhythm@));
    distances
}

/// Every transient after the first gives a frame, whatever its distance:
/// there is one frame distance per transient but the first, in order, and
/// frame `i` is the distance entry of transient `i + 1`.
pub proof fn lemma_frame_distances_keep_every_transient(rhythm: Seq<i32>)
    ensures
        rhythm.len() >= 2 ==> spec_frame_distances(rhythm).len() == rhythm.len() / 2 - 1,
        rhythm.len() < 2 ==> spec_frame_distances(rhythm).len() == 0,
        forall|i: int|
            0 <= i < spec_frame_distances(rhythm).len() ==> #[trigger] spec_frame_distances(
                rhythm,
            )[i] == rhythm[2 * i + 2],
        2 * spec_frame_distances(rhythm).len() + 2 <= rhythm.len() || spec_frame_distances(
            rhythm,
        ).len() == 0,
{
}

/// Where the run of quiet samples that starts at `it` ends: the first index
/// from `it` on that is past the end or holds a transient.
pub open spec fn run_end(quiet: Seq<bool>, it: int) -> int
    decreases quiet.len() - it,
{
    if it < 0 || it >= quiet.len() || !quiet[it] {
        it
    } else {
        run_end(quiet, it + 1)
    }
}

/// The lengths of `count` frames from sample `it` on: a frame runs over the
/// quiet samples up to the next transient, and takes the transient in too.
pub open spec fn spec_frame_lengths(quiet: Seq<bool>, it: int, count: nat) -> Seq<int>
    decreases count,
{
    if count == 0 {
        Seq::empty()
    } else {
        let end = run_end(quiet, it);
        seq![end - it + 1] + spec_frame_lengths(quiet, end + 1, (count - 1) as nat)
    }
}

proof fn lemma_frame_lengths_len(quiet: Seq<bool>, it: int, count: nat)
    ensures
        spec_frame_lengths(quiet, it, count).len() == count,
    decreases count,
{
    if count > 0 {
        lemma_frame_lengths_len(quiet, run_end(quiet, it) + 1, (count - 1) as nat);
    }
}

proof fn lemma_run_end_bounds(quiet: Seq<bool>, it: int)
    requires
        0 <= it,
    ensures
        it <= run_end(quiet, it),
        it <= quiet.len() ==> run_end(quiet, it) <= quiet.len(),
        it > quiet.len() ==> run_end(quiet, it) == it,
    decreases quiet.len() - it,
{
    if 0 <= it < quiet.len() && quiet[it] {
        lemma_run_end_bounds(quiet, it + 1);
    }
}

/// Sum of the first `k` entries of `s`.
pub open spec fn sum_first(s: Seq<int>, k: int) -> int
    decreases k,
{
    if k <= 0 || s.len() == 0 {
        0
    } else {
        s[0] + sum_first(s.drop_first(), k - 1)
    }
}

proof fn lemma_run_end_props(quiet: Seq<bool>, it: int)
    requires
        0 <= it,
    ensures
        forall|j: int| it <= j < run_end(quiet, it) ==> quiet[j],
        run_end(quiet, it) >= quiet.len() || !quiet[run_end(quiet, it)],
        it <= run_end(quiet, it),
    decreases quiet.len() - it,
{
    if 0 <= it < quiet.len() && quiet[it] {
        lemma_run_end_props(quiet, it + 1);
    }
}

/// Frames tile the song from sample `it` on: frame `k` starts where the
/// frames before it end, has at least one sample, runs over quiet samples
/// only, and its last sample is a transient or lies past the last sample.
pub proof fn lemma_frames_tile(quiet: Seq<bool>, it: int, count: nat, k: int)
    requires
        0 <= it,
        0 <= k < count,
    ensures
        ({
            let lens = spec_frame_lengths(quiet, it, count);
            let start = it + sum_first(lens, k);
            let last = start + lens[k] - 1;
            &&& lens.len() == count
            &&& lens[k] >= 1
            &&& forall|j: int| start <= j < last ==> quiet[j]
            &&& (last >= quiet.len() || !quiet[last])
        }),
    decreases count,
{
    lemma_frame_lengths_len(quiet, it, count);
    let lens = spec_frame_lengths(quiet, it, count);
    let e = run_end(quiet, it);
    lemma_run_end_props(quiet, it);
    let rest = spec_frame_lengths(quiet, e + 1, (count - 1) as nat);
    assert(lens == seq![e - it + 1] + rest);
    if k > 0 {
        lemma_frames_tile(quiet, e + 1, (count - 1) as nat, k - 1);
        assert(lens.drop_first() =~= rest);
        assert(sum_first(lens, k) == lens[0] + sum_first(rest, k - 1));
        assert(lens[k] == rest[k - 1]);
    }
}

/// The lengths of the first `count` frames of a song whose samples are marked
/// quiet (`true`) or transient (`false`).
pub fn frame_lengths(quiet: &[bool], count: usize) -> (lengths: Vec<usize>)
    requires
        quiet@.len() + count < usize::MAX,
    ensures
        lengths@.len() == count,
        forall|i: int|
            0 <= i < count ==> lengths@[i] == #[trigger] spec_frame_lengths(quiet@, 0, count as nat)[i],
{
    let mut lengths: Vec<usize> = Vec::new();
    let mut it: usize = 0;
    let n = quiet.len();
    let mut k: usize = 0;
    proof {
        lemma_frame_lengths_len(quiet@, 0, count as nat);
    }
    while k < count
        invariant
            n == quiet@.len(),
            n + count < usize::MAX,
            k <= count,
            it <= n + k,
            lengths@.len() == k,
            spec_frame_lengths(quiet@, 0, count as nat).len() == count,
            forall|i: int| 0 <= i < k ==> #[trigger] lengths@[i] as int == spec_frame_lengths(quiet@, 0, count as nat)[i],
            spec_frame_lengths(quiet@, 0, count as nat) =~= spec_frame_lengths(quiet@, 0, count as nat).take(k as int)
                + spec_frame_lengths(quiet@, it as int, (count - k) as nat),
        decreases count - k,
    {
        let ghost start = it as int;
        let mut len: usize = 0;
        proof {
            lemma_run_end_bounds(quiet@, start);
        }
        while it < n && quiet[it]
            invariant
                n == quiet@.len(),
                n + count < usize::MAX,
                k < count,
                0 <= start <= it,
                start <= n + k,
                it <= n + k,
                len == it - start,
                run_end(quiet@, it as int) == run_end(quiet@, start),
            decreases n - it,
        {
            it = it + 1;
            len = len + 1;
        }
        proof {
            assert(run_end(quiet@, it as int) == it);
        }
        it = it + 1;
        len = len + 1;
        lengths.push(len);
        proof {
            let all = spec_frame_lengths(quiet@, 0, count as nat);
            let rest = spec_frame_lengths(quiet@, start, (count - k) as nat);
            assert(rest == seq![len as int] + spec_frame_lengths(quiet@, it as int, (count - k - 1) as nat));
            assert(all.take(k + 1) =~= all.take(k as int).push(len as int));
            assert(all =~= all.take(k + 1) + spec_frame_lengths(quiet@, it as int, (count - (k + 1)) as nat));
        }
        k = k + 1;
    }
    lengths
}

} // verus!

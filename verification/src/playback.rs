//! The light cues that follow a song's rhythm while it plays.
//!
//! For every sample played the schedule decides whether a colour frame is due
//! (every `COLOR_PERIOD` samples), and whether the heads move: a move with the
//! transient's intensity once the distance entry of the next transient has been
//! counted down, and a move back halfway to that transient.

use vstd::prelude::*;

verus! {

/// Number of samples between two colour frames.
pub const COLOR_PERIOD: usize = 4410;

/// What the heads do on a sample.
#[derive(Debug, Clone, Copy, PartialEq, Eq)]
pub enum Movement {
    /// Nothing.
    Hold,
    /// Move through an arc scaled from this intensity.
    Move(i32),
    /// Move back through the arc of the last move.
    MoveBack,
}

/// The cues of one sample.
#[derive(Debug, Clone, Copy, PartialEq, Eq)]
pub struct Cue {
    /// A colour frame is due.
    pub color: bool,
    /// What the heads do.
    pub movement: Movement,
}

/// The state of the schedule, as plain values.
pub struct CueView {
    /// The rhythm being followed: distance entry and intensity of each transient.
    pub rhythm: Seq<i32>,
    /// Samples counted towards the next transient.
    pub transient_iter: usize,
    /// Index of the next transient.
    pub curr_trans: usize,
    /// Samples counted towards the next colour frame.
    pub count: usize,
}

/// Half of `g`, rounded towards zero.
pub open spec fn half(g: i32) -> i32 {
    (if g >= 0 {
        g / 2
    } else {
        -((-g) / 2)
    }) as i32
}

/// The colour counter after one more sample.
pub open spec fn next_count(count: usize) -> usize {
    if count == COLOR_PERIOD {
        1
    } else {
        (count + 1) as usize
    }
}

impl CueView {
    /// What every reachable state of the schedule satisfies.
    pub open spec fn wf(self) -> bool {
        &&& self.count <= COLOR_PERIOD
        &&& 2 * self.curr_trans <= self.rhythm.len()
    }

    /// The state after one more sample, and that sample's cues.
    pub open spec fn step(self) -> (CueView, Cue) {
        let color = self.count == COLOR_PERIOD;
        let c = self.curr_trans;
        let t = self.transient_iter;
        let (iter, curr, movement) = if 2 * c + 1 < self.rhythm.len() {
            let g = self.rhythm[2 * c];
            if t >= #[verifier::truncate] (g as usize) {
                (0usize, (c + 1) as usize, Movement::Move(self.rhythm[2 * c + 1]))
            } else if t == #[verifier::truncate] (half(g) as usize) {
                (t, c, Movement::MoveBack)
            } else {
                (t, c, Movement::Hold)
            }
        } else {
            (t, c, Movement::Hold)
        };
        (
            CueView {
                rhythm: self.rhythm,
                transient_iter: (iter + 1) as usize,
                curr_trans: curr,
                count: next_count(self.count),
            },
            Cue { color, movement },
        )
    }

    /// The state after `n` more samples.
    pub open spec fn run(self, n: nat) -> CueView
        decreases n,
    {
        if n == 0 {
            self
        } else {
            self.run((n - 1) as nat).step().0
        }
    }

    /// The cues of the sample played after `n` more samples.
    pub open spec fn cue_after(self, n: nat) -> Cue {
        self.run(n).step().1
    }
}

/// Colour frames keep a steady pace: once one is due, the next one is due
/// exactly `COLOR_PERIOD` samples later, and none in between.
pub proof fn lemma_color_period(s: CueView, j: nat)
    requires
        s.count == COLOR_PERIOD,
        0 < j <= COLOR_PERIOD,
    ensures
        s.cue_after(0).color,
        s.run(j).count == j,
        s.cue_after(j).color == (j == COLOR_PERIOD),
    decreases j,
{
    if j > 1 {
        lemma_color_period(s, (j - 1) as nat);
    }
}

/// From any reachable state, the next colour frame is due once the counter
/// reaches `COLOR_PERIOD`: after `j` samples with `j <= COLOR_PERIOD - count`
/// the counter has grown by `j`, and the colour cue comes on exactly the
/// sample `COLOR_PERIOD - count` samples from now.
pub proof fn lemma_color_countdown(s: CueView, j: nat)
    requires
        s.wf(),
        j <= COLOR_PERIOD - s.count,
    ensures
        s.run(j).count == s.count + j,
        s.cue_after(j).color == (j == COLOR_PERIOD - s.count),
    decreases j,
{
    if j > 0 {
        lemma_color_countdown(s, (j - 1) as nat);
    }
}

/// A move cue moves on to the next transient: it carries that transient's
/// intensity, and the next sample starts counting towards the transient after
/// it from one. No other cue changes which transient is next.
pub proof fn lemma_move_advances(s: CueView)
    requires
        s.wf(),
        s.transient_iter < usize::MAX,
        s.rhythm.len() <= usize::MAX,
    ensures
        s.step().1.movement matches Movement::Move(level) ==> {
            &&& 2 * s.curr_trans + 1 < s.rhythm.len()
            &&& level == s.rhythm[2 * s.curr_trans + 1]
            &&& s.step().0.curr_trans == s.curr_trans + 1
            &&& s.step().0.transient_iter == 1
        },
        !(s.step().1.movement is Move) ==> s.step().0.curr_trans == s.curr_trans
            && s.step().0.transient_iter == s.transient_iter + 1,
        s.step().0.rhythm == s.rhythm,
        s.step().0.wf(),
{
    let c = s.curr_trans;
    let t = s.transient_iter;
    if 2 * c + 1 < s.rhythm.len() {
        let g = s.rhythm[2 * c];
        if t >= #[verifier::truncate] (g as usize) {
            assert(s.step().1.movement == Movement::Move(s.rhythm[2 * c + 1]));
            assert(s.step().0.curr_trans == c + 1);
            assert(s.step().0.transient_iter == 1);
        } else {
            assert(!(s.step().1.movement is Move));
        }
    } else {
        assert(s.step().1.movement == Movement::Hold);
    }
}

/// Moves follow the rhythm: from a state that has counted `t` samples
/// towards the next transient, whose distance entry is `g >= t`, the move of
/// that transient comes exactly `g - t` samples later with the transient's
/// intensity; before it the heads only move back, once, on the sample whose
/// count is half the distance.
pub proof fn lemma_move_timing(s: CueView, j: nat)
    requires
        s.wf(),
        2 * s.curr_trans + 1 < s.rhythm.len(),
        s.transient_iter <= s.rhythm[2 * s.curr_trans],
        j <= s.rhythm[2 * s.curr_trans] - s.transient_iter,
    ensures
        s.run(j).rhythm == s.rhythm,
        s.run(j).curr_trans == s.curr_trans,
        s.run(j).transient_iter == s.transient_iter + j,
        s.cue_after(j).movement == (if j == s.rhythm[2 * s.curr_trans] - s.transient_iter {
            Movement::Move(s.rhythm[2 * s.curr_trans + 1])
        } else if s.transient_iter + j == half(s.rhythm[2 * s.curr_trans]) {
            Movement::MoveBack
        } else {
            Movement::Hold
        }),
    decreases j,
{
    let g = s.rhythm[2 * s.curr_trans];
    if j > 0 {
        lemma_move_timing(s, (j - 1) as nat);
    }
    let r = s.run(j);
    assert(0 <= g);
    assert(#[verifier::truncate] (g as usize) == g);
    assert(0 <= half(g) <= g);
    assert(#[verifier::truncate] (half(g) as usize) == half(g));
}

/// Halving rounds towards zero: for a non-negative distance it is the
/// integer half, for a negative one the negated half of its magnitude.
pub proof fn lemma_half_rounds_towards_zero(g: i32)
    ensures
        g >= 0 ==> 0 <= 2 * half(g) <= g <= 2 * half(g) + 1,
        g < 0 ==> 2 * half(g) - 1 <= g <= 2 * half(g) <= 0,
{
}

/// The move back comes halfway to the transient: from a state that has
/// counted `t` samples towards the next transient, whose distance entry is
/// `g >= 1`, with `t <= g / 2`, the heads move back exactly on the sample
/// whose count is `g / 2`, `g / 2 - t` samples later, and only once before
/// the move itself.
pub proof fn lemma_move_back_halfway(s: CueView, j: nat)
    requires
        s.wf(),
        2 * s.curr_trans + 1 < s.rhythm.len(),
        s.rhythm[2 * s.curr_trans] >= 1,
        s.transient_iter <= s.rhythm[2 * s.curr_trans] / 2,
        j < s.rhythm[2 * s.curr_trans] - s.transient_iter,
    ensures
        (s.cue_after(j).movement == Movement::MoveBack) <==> (s.transient_iter + j
            == s.rhythm[2 * s.curr_trans] / 2),
        s.cue_after(j).movement != Movement::MoveBack ==> s.cue_after(j).movement
            == Movement::Hold,
{
    let g = s.rhythm[2 * s.curr_trans];
    lemma_half_rounds_towards_zero(g);
    assert(half(g) == g / 2);
    lemma_move_timing(s, j);
}

/// The light cue schedule of the song being played.
pub struct LightCues {
    rhythm: Vec<i32>,
    transient_iter: usize,
    curr_trans: usize,
    count: usize,
}

impl View for LightCues {
    type V = CueView;

    closed spec fn view(&self) -> CueView {
        CueView {
            rhythm: self.rhythm@,
            transient_iter: self.transient_iter,
            curr_trans: self.curr_trans,
            count: self.count,
        }
    }
}

impl LightCues {
    /// A schedule that follows `rhythm` from its first transient.
    pub fn new(rhythm: Vec<i32>) -> (cues: LightCues)
        ensures
            cues@ == (CueView { rhythm: rhythm@, transient_iter: 0, curr_trans: 0, count: 0 }),
            cues@.wf(),
    {
        LightCues { rhythm, transient_iter: 0, curr_trans: 0, count: 0 }
    }

    /// Starts following the rhythm of a new song from its first transient; the
    /// colour frames keep their pace.
    pub fn restart(&mut self, rhythm: Vec<i32>)
        ensures
            final(self)@ == (CueView {
                rhythm: rhythm@,
                transient_iter: 0,
                curr_trans: 0,
                count: old(self)@.count,
            }),
            old(self)@.wf() ==> final(self)@.wf(),
    {
        self.rhythm = rhythm;
        self.transient_iter = 0;
        self.curr_trans = 0;
    }

    /// The cues of the next sample played.
    pub fn step(&mut self) -> (cue: Cue)
        requires
            old(self)@.wf(),
            old(self)@.transient_iter < usize::MAX,
        ensures
            (final(self)@, cue) == old(self)@.step(),
            final(self)@.wf(),
    {
        let color = self.count == COLOR_PERIOD;
        if color {
            self.count = 0;
        }
        let mut movement = Movement::Hold;
        if self.curr_trans < self.rhythm.len() / 2 {
            let g = self.rhythm[self.curr_trans * 2];
            if self.transient_iter >= #[verifier::truncate] (g as usize) {
                movement = Movement::Move(self.rhythm[self.curr_trans * 2 + 1]);
                self.transient_iter = 0;
                self.curr_trans = self.curr_trans + 1;
            } else if self.transient_iter == #[verifier::truncate] ((g / 2) as usize) {
                movement = Movement::MoveBack;
            }
        }
        self.transient_iter = self.transient_iter + 1;
        self.count = self.count + 1;
        Cue { color, movement }
    }

    /// Samples counted towards the next transient.
    pub fn transient_iter(&self) -> (t: usize)
        ensures
            t == self@.transient_iter,
    {
        self.transient_iter
    }

    /// Index of the next transient.
    pub fn curr_trans(&self) -> (c: usize)
        ensures
            c == self@.curr_trans,
    {
        self.curr_trans
    }
}

} // verus!

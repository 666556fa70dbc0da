//! The DMX frame sent to the two moving-head fixtures.
//!
//! Byte 0 is the start code. Fixture one reads bytes 1 to 5 (movement arc,
//! direction, red, green, blue), fixture two the same fields in bytes 6 to 10.
//! The direction byte holds one bit per axis: bit 0 for up and down, bit 1 for
//! left and right; flipping a bit sends the head back the other way.

use vstd::prelude::*;

verus! {

/// Number of bytes in a frame: the start code and five channels per fixture.
pub const FRAME_LEN: usize = 11;

/// Direction bit of the up and down movement.
pub const TILT_BIT: u8 = 1;

/// Direction bit of the left and right movement.
pub const PAN_BIT: u8 = 2;

/// The frame after a move of the given arc downwards on both fixtures.
pub open spec fn moved(msg: Seq<u8>, level: u8) -> Seq<u8> {
    msg.update(1, level).update(6, level).update(2, TILT_BIT).update(7, TILT_BIT)
}

/// The frame after the tilt direction of both fixtures is reversed, with the
/// arc of the last move.
pub open spec fn moved_back(msg: Seq<u8>, angle: u8) -> Seq<u8> {
    msg.update(1, angle).update(6, angle).update(2, msg[2] ^ TILT_BIT).update(7, msg[7] ^ TILT_BIT)
}

/// The frame after a left and right sweep is started on both fixtures.
pub open spec fn swept(msg: Seq<u8>) -> Seq<u8> {
    msg.update(2, PAN_BIT).update(7, PAN_BIT)
}

/// The frame after the pan direction of both fixtures is reversed.
pub open spec fn swept_back(msg: Seq<u8>) -> Seq<u8> {
    msg.update(2, msg[2] ^ PAN_BIT).update(7, msg[7] ^ PAN_BIT)
}

/// The frame after both fixtures are given the colour `(r, g, b)`; the arc
/// bytes are cleared so that the frame moves nothing.
pub open spec fn colored(msg: Seq<u8>, r: u8, g: u8, b: u8) -> Seq<u8> {
    msg.update(3, r).update(4, g).update(5, b).update(8, r).update(9, g).update(10, b).update(
        1,
        0,
    ).update(6, 0)
}

/// Which of the three levels (0 bass, 1 mid, 2 high) is the loudest: the
/// largest level, and among equal largest levels the one of the higher band.
pub open spec fn loudest(bass: u8, mid: u8, high: u8) -> int {
    if high >= mid && high >= bass {
        2
    } else if mid >= bass {
        1
    } else {
        0
    }
}

/// The level of band `i` (0 bass, 1 mid, 2 high).
pub open spec fn band_level(bass: u8, mid: u8, high: u8, i: int) -> u8 {
    if i == 0 {
        bass
    } else if i == 1 {
        mid
    } else {
        high
    }
}

/// Half of the loudest level, rounded down: how much the other two are lowered.
pub open spec fn damping(bass: u8, mid: u8, high: u8) -> u8 {
    (band_level(bass, mid, high, loudest(bass, mid, high)) / 2) as u8
}

/// The colour level of band `i` after mixing: the loudest keeps its level,
/// the others are lowered by the damping, down to zero at the lowest.
pub open spec fn mixed_level(bass: u8, mid: u8, high: u8, i: int) -> u8 {
    let level = band_level(bass, mid, high, i);
    let damp = damping(bass, mid, high);
    if i == loudest(bass, mid, high) {
        level
    } else if level >= damp {
        (level - damp) as u8
    } else {
        0
    }
}

/// Mixes the three band levels into a red, green and blue level: the loudest
/// band keeps its level and the two others are lowered by half of it, down
/// to zero at the lowest, which widens the margin between the dominant colour
/// and the rest.
pub fn mix_colors(bass: u8, mid: u8, high: u8) -> (rgb: (u8, u8, u8))
    ensures
        rgb.0 == mixed_level(bass, mid, high, 0),
        rgb.1 == mixed_level(bass, mid, high, 1),
        rgb.2 == mixed_level(bass, mid, high, 2),
{
    if high >= mid && high >= bass {
        let damp = high / 2;
        (bass.saturating_sub(damp), mid.saturating_sub(damp), high)
    } else if mid >= bass {
        let damp = mid / 2;
        (bass.saturating_sub(damp), mid, high.saturating_sub(damp))
    } else {
        let damp = bass / 2;
        (bass, mid.saturating_sub(damp), high.saturating_sub(damp))
    }
}

/// What each frame operation writes, byte by byte: a move puts the arc in
/// bytes 1 and 6 and the down direction in bytes 2 and 7; a move back puts
/// the last arc in bytes 1 and 6 and flips bit 0 of bytes 2 and 7; a sweep
/// puts the left-right direction in bytes 2 and 7; a sweep back flips bit 1 of
/// them; a colour puts red, green and blue in bytes 3 to 5 and 8 to 10 and
/// clears bytes 1 and 6. Every other byte is kept.
pub proof fn lemma_frame_bytes(msg: Seq<u8>, level: u8, angle: u8, r: u8, g: u8, b: u8, i: int)
    requires
        msg.len() == FRAME_LEN,
        0 <= i < FRAME_LEN,
    ensures
        moved(msg, level).len() == FRAME_LEN,
        moved(msg, level)[i] == (if i == 1 || i == 6 {
            level
        } else if i == 2 || i == 7 {
            1u8
        } else {
            msg[i]
        }),
        moved_back(msg, angle).len() == FRAME_LEN,
        moved_back(msg, angle)[i] == (if i == 1 || i == 6 {
            angle
        } else if i == 2 || i == 7 {
            msg[i] ^ 1u8
        } else {
            msg[i]
        }),
        swept(msg).len() == FRAME_LEN,
        swept(msg)[i] == (if i == 2 || i == 7 {
            2u8
        } else {
            msg[i]
        }),
        swept_back(msg).len() == FRAME_LEN,
        swept_back(msg)[i] == (if i == 2 || i == 7 {
            msg[i] ^ 2u8
        } else {
            msg[i]
        }),
        colored(msg, r, g, b).len() == FRAME_LEN,
        colored(msg, r, g, b)[i] == (if i == 3 || i == 8 {
            r
        } else if i == 4 || i == 9 {
            g
        } else if i == 5 || i == 10 {
            b
        } else if i == 1 || i == 6 {
            0u8
        } else {
            msg[i]
        }),
{
}

/// A move followed by a move back tilts both fixtures back up through the
/// same arc: the direction bytes end at zero and the colours are untouched.
pub proof fn lemma_move_then_back(msg: Seq<u8>, level: u8)
    requires
        msg.len() == FRAME_LEN,
    ensures
        moved_back(moved(msg, level), level) == msg.update(1, level).update(6, level).update(
            2,
            0,
        ).update(7, 0),
{
    assert(TILT_BIT ^ TILT_BIT == 0u8) by (bit_vector);
    assert(moved_back(moved(msg, level), level) =~= msg.update(1, level).update(6, level).update(
        2,
        0,
    ).update(7, 0));
}

/// Two moves back in a row leave the tilt direction where it was.
pub proof fn lemma_move_back_twice(msg: Seq<u8>, angle: u8)
    requires
        msg.len() == FRAME_LEN,
    ensures
        moved_back(moved_back(msg, angle), angle) == msg.update(1, angle).update(6, angle),
{
    let a = msg[2];
    let b = msg[7];
    assert((a ^ TILT_BIT) ^ TILT_BIT == a) by (bit_vector);
    assert((b ^ TILT_BIT) ^ TILT_BIT == b) by (bit_vector);
    assert(moved_back(moved_back(msg, angle), angle) =~= msg.update(1, angle).update(6, angle));
}

/// A sweep followed by a sweep back ends with both direction bytes at zero.
pub proof fn lemma_sweep_then_back(msg: Seq<u8>)
    requires
        msg.len() == FRAME_LEN,
    ensures
        swept_back(swept(msg)) == msg.update(2, 0).update(7, 0),
{
    assert(PAN_BIT ^ PAN_BIT == 0u8) by (bit_vector);
    assert(swept_back(swept(msg)) =~= msg.update(2, 0).update(7, 0));
}

/// Two sweeps back in a row give the frame they started from.
pub proof fn lemma_sweep_back_twice(msg: Seq<u8>)
    requires
        msg.len() == FRAME_LEN,
    ensures
        swept_back(swept_back(msg)) == msg,
{
    let a = msg[2];
    let b = msg[7];
    assert((a ^ PAN_BIT) ^ PAN_BIT == a) by (bit_vector);
    assert((b ^ PAN_BIT) ^ PAN_BIT == b) by (bit_vector);
    assert(swept_back(swept_back(msg)) =~= msg);
}

/// A colour frame gives both fixtures the same colour, moves nothing, and
/// keeps the direction bytes.
pub proof fn lemma_color_frame(msg: Seq<u8>, r: u8, g: u8, b: u8)
    requires
        msg.len() == FRAME_LEN,
    ensures
        colored(msg, r, g, b).len() == FRAME_LEN,
        colored(msg, r, g, b)[3] == r && colored(msg, r, g, b)[8] == r,
        colored(msg, r, g, b)[4] == g && colored(msg, r, g, b)[9] == g,
        colored(msg, r, g, b)[5] == b && colored(msg, r, g, b)[10] == b,
        colored(msg, r, g, b)[1] == 0 && colored(msg, r, g, b)[6] == 0,
        colored(msg, r, g, b)[0] == msg[0],
        colored(msg, r, g, b)[2] == msg[2] && colored(msg, r, g, b)[7] == msg[7],
{
}

/// The band that keeps its level is a loudest one: no band is louder, and
/// every higher band is strictly quieter (ties go to the higher band). After
/// mixing it carries the largest of the three levels, and no colour is above it.
pub proof fn lemma_loudest_is_largest(bass: u8, mid: u8, high: u8, i: int)
    requires
        0 <= i < 3,
    ensures
        0 <= loudest(bass, mid, high) < 3,
        band_level(bass, mid, high, i) <= band_level(bass, mid, high, loudest(bass, mid, high)),
        i > loudest(bass, mid, high) ==> band_level(bass, mid, high, i) < band_level(
            bass,
            mid,
            high,
            loudest(bass, mid, high),
        ),
        mixed_level(bass, mid, high, loudest(bass, mid, high)) == band_level(
            bass,
            mid,
            high,
            loudest(bass, mid, high),
        ),
        mixed_level(bass, mid, high, i) <= mixed_level(bass, mid, high, loudest(bass, mid, high)),
        i != loudest(bass, mid, high) ==> mixed_level(bass, mid, high, i) as int == (if band_level(
            bass,
            mid,
            high,
            i,
        ) >= band_level(bass, mid, high, loudest(bass, mid, high)) / 2 {
            band_level(bass, mid, high, i) - band_level(bass, mid, high, loudest(bass, mid, high))
                / 2
        } else {
            0
        }),
{
}

/// Mixing in terms of the three levels themselves: no colour is above its
/// own band's level, the largest colour is the largest level, it sits on a
/// band that had that level, and the others are lowered by half of it.
pub proof fn lemma_mix_by_levels(bass: u8, mid: u8, high: u8)
    ensures
        ({
            let top = if bass >= mid && bass >= high {
                bass
            } else if mid >= high {
                mid
            } else {
                high
            };
            let r = mixed_level(bass, mid, high, 0);
            let g = mixed_level(bass, mid, high, 1);
            let b = mixed_level(bass, mid, high, 2);
            &&& r <= bass && g <= mid && b <= high
            &&& r <= top && g <= top && b <= top
            &&& (r == top && bass == top) || (g == top && mid == top) || (b == top && high == top)
            &&& (high == top ==> b == high && g as int == (if mid >= top / 2 { mid - top / 2 } else { 0 }) && r as int == (if bass >= top / 2 { bass - top / 2 } else { 0 }))
            &&& (high < top && mid == top ==> g == mid && b as int == (if high >= top / 2 { high - top / 2 } else { 0 }) && r as int == (if bass >= top / 2 { bass - top / 2 } else { 0 }))
            &&& (high < top && mid < top ==> r == bass && g as int == (if mid >= top / 2 { mid - top / 2 } else { 0 }) && b as int == (if high >= top / 2 { high - top / 2 } else { 0 }))
        }),
{
}

/// Mixing keeps the loudest band's level and never narrows its margin over
/// another band: the margin grows by the damping, or by the other band's whole
/// level where that is smaller, so the loudest colour stays on top.
pub proof fn lemma_mix_widens_margin(bass: u8, mid: u8, high: u8, i: int)
    requires
        0 <= i < 3,
        i != loudest(bass, mid, high),
    ensures
        ({
            let l = loudest(bass, mid, high);
            let level = band_level(bass, mid, high, i);
            let damp = damping(bass, mid, high);
            &&& mixed_level(bass, mid, high, l) == band_level(bass, mid, high, l)
            &&& mixed_level(bass, mid, high, l) - mixed_level(bass, mid, high, i) == band_level(
                bass,
                mid,
                high,
                l,
            ) - level + (if level >= damp {
                damp as int
            } else {
                level as int
            })
            &&& mixed_level(bass, mid, high, i) <= mixed_level(bass, mid, high, l)
            &&& band_level(bass, mid, high, l) - level <= mixed_level(bass, mid, high, l)
                - mixed_level(bass, mid, high, i)
        }),
{
}

/// The frame of the two fixtures, and the arc of the last move.
pub struct DMX {
    msg: Vec<u8>,
    angle: u8,
}

impl Default for DMX {
    fn default() -> (dmx: DMX)
        ensures
            dmx.frame() == Seq::new(FRAME_LEN as nat, |i: int| 0u8),
            dmx.angle() == 0,
    {
        let dmx = DMX { msg: vec![0, 0, 0, 0, 0, 0, 0, 0, 0, 0, 0], angle: 0 };
        assert(dmx.msg@ =~= Seq::new(FRAME_LEN as nat, |i: int| 0u8));
        dmx
    }
}

impl DMX {
    /// A frame always has all eleven bytes.
    #[verifier::type_invariant]
    spec fn frame_complete(&self) -> bool {
        self.msg@.len() == FRAME_LEN
    }

    /// The bytes of the frame.
    pub closed spec fn frame(&self) -> Seq<u8> {
        self.msg@
    }

    /// The bytes of the frame, as they are sent.
    pub fn msg(&self) -> (msg: &Vec<u8>)
        ensures
            msg@ == self.frame(),
            msg@.len() == FRAME_LEN,
    {
        proof {
            use_type_invariant(self);
        }
        &self.msg
    }

    /// The arc of the last move.
    pub closed spec fn angle(&self) -> u8 {
        self.angle
    }

    /// The arc of the last move.
    pub fn get_angle(&self) -> (angle: u8)
        ensures
            angle == self.angle(),
    {
        self.angle
    }

    /// Moves both fixtures downwards through an arc of `level`, the transient's
    /// intensity scaled to a byte.
    pub fn simple_move(&mut self, level: u8)
        ensures
            final(self).frame() == moved(old(self).frame(), level),
            final(self).angle() == level,
    {
        proof {
            use_type_invariant(&*self);
        }
        self.angle = level;
        self.msg[1] = self.angle;
        self.msg[6] = self.angle;
        self.msg[2] = TILT_BIT;
        self.msg[7] = TILT_BIT;
    }

    /// Sets both fixtures to the colour mixed from the three band levels, and
    /// clears the arc so that the frame moves nothing.
    pub fn change_color(&mut self, bass: u8, mid: u8, high: u8)
        ensures
            final(self).frame() == colored(
                old(self).frame(),
                mixed_level(bass, mid, high, 0),
                mixed_level(bass, mid, high, 1),
                mixed_level(bass, mid, high, 2),
            ),
            final(self).angle() == old(self).angle(),
    {
        proof {
            use_type_invariant(&*self);
        }
        let (r, g, b) = mix_colors(bass, mid, high);
        self.msg[3] = r;
        self.msg[4] = g;
        self.msg[5] = b;
        self.msg[8] = r;
        self.msg[9] = g;
        self.msg[10] = b;
        self.msg[1] = 0;
        self.msg[6] = 0;
    }

    /// Reverses the tilt of both fixtures through the arc of the last move.
    pub fn simple_move_back(&mut self)
        ensures
            final(self).frame() == moved_back(old(self).frame(), old(self).angle()),
            final(self).angle() == old(self).angle(),
    {
        proof {
            use_type_invariant(&*self);
        }
        self.msg[1] = self.angle;
        self.msg[6] = self.angle;
        self.msg[2] = self.msg[2] ^ TILT_BIT;
        self.msg[7] = self.msg[7] ^ TILT_BIT;
    }

    /// Starts a left and right sweep on both fixtures.
    pub fn left_right_move(&mut self)
        ensures
            final(self).frame() == swept(old(self).frame()),
            final(self).angle() == old(self).angle(),
    {
        proof {
            use_type_invariant(&*self);
        }
        self.msg[2] = PAN_BIT;
        self.msg[7] = PAN_BIT;
    }

    /// Reverses the pan of both fixtures.
    pub fn left_right_back(&mut self)
        ensures
            final(self).frame() == swept_back(old(self).frame()),
            final(self).angle() == old(self).angle(),
    {
        proof {
            use_type_invariant(&*self);
        }
        self.msg[2] = self.msg[2] ^ PAN_BIT;
        self.msg[7] = self.msg[7] ^ PAN_BIT;
    }
}

} // verus!

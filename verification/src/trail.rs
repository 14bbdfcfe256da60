//! The trail a body leaves behind: its most recent positions, oldest first,
//! and how long the trail outlives the body.

use crate::scalar::{Scalar, SCALE};
use crate::vector::Vec2;
use ringbuffer::ConstGenericRingBuffer;
use ringbuffer::RingBuffer;
use vstd::prelude::*;

verus! {

/// Number of positions a trail can hold.
pub const TRAIL_LENGTH: usize = 512;

/// The ring buffer of the `ringbuffer` crate, opaque to the verifier.
#[verifier::external_type_specification]
#[verifier::external_body]
#[verifier::reject_recursive_types(T)]
pub struct ExConstGenericRingBuffer<T, const CAP: usize>(ConstGenericRingBuffer<T, CAP>);

/// What a trail's buffer holds: raw coordinate pairs, oldest first.
pub uninterp spec fn buffer_points(buffer: ConstGenericRingBuffer<(i64, i64), 512>) -> Seq<
    (i64, i64),
>;

/// The points `s` after `p` has been added at the end of a buffer with room
/// for `capacity` points: once the buffer is full the oldest point leaves.
pub open spec fn pushed(s: Seq<(i64, i64)>, p: (i64, i64), capacity: int) -> Seq<(i64, i64)> {
    if s.len() < capacity {
        s.push(p)
    } else {
        s.subrange(1, s.len() as int).push(p)
    }
}

/// `ConstGenericRingBuffer::new`: a buffer that holds nothing.
#[verifier::external_body]
fn buffer_new() -> (buffer: ConstGenericRingBuffer<(i64, i64), 512>)
    ensures
        buffer_points(buffer) == Seq::<(i64, i64)>::empty(),
{
    ConstGenericRingBuffer::new()
}

/// `RingBuffer::push`: adds `point` as the newest item; a full buffer first
/// drops its oldest item, and the others keep their order.
#[verifier::external_body]
fn buffer_push(buffer: &mut ConstGenericRingBuffer<(i64, i64), 512>, point: (i64, i64))
    ensures
        buffer_points(*final(buffer)) == pushed(buffer_points(*old(buffer)), point, 512),
{
    buffer.push(point);
}

/// `RingBuffer::len`: the number of items held.
#[verifier::external_body]
fn buffer_len(buffer: &ConstGenericRingBuffer<(i64, i64), 512>) -> (n: usize)
    ensures
        n == buffer_points(*buffer).len(),
{
    buffer.len()
}

/// `RingBuffer::to_vec`: the items in a vector, oldest first.
#[verifier::external_body]
fn buffer_to_vec(buffer: &ConstGenericRingBuffer<(i64, i64), 512>) -> (points: Vec<(i64, i64)>)
    ensures
        points@ == buffer_points(*buffer),
{
    buffer.to_vec()
}

/// `Clone::clone` of the buffer: a buffer with the same items in the same
/// order.
#[verifier::external_body]
fn buffer_clone(buffer: &ConstGenericRingBuffer<(i64, i64), 512>) -> (copy: ConstGenericRingBuffer<
    (i64, i64),
    512,
>)
    ensures
        buffer_points(copy) == buffer_points(*buffer),
{
    buffer.clone()
}

/// How long a trail stays once its body is gone.
#[derive(Clone, Copy, Debug, PartialEq, Eq, Structural)]
pub enum FadeOut {
    /// The trail stays.
    Never,
    /// The trail fades over `duration` seconds, of which `remaining` are left.
    InSeconds { remaining: Scalar, duration: Scalar },
}

impl Default for FadeOut {
    /// A trail stays unless it is told to fade.
    fn default() -> (r: FadeOut)
        ensures
            r == FadeOut::Never,
    {
        FadeOut::Never
    }
}

/// What to draw of a fading trail after time has passed.
#[derive(Clone, Copy, Debug, PartialEq, Eq, Structural)]
pub struct Fade {
    /// Opacity of the trail, from one down to zero.
    pub alpha: Scalar,
    /// Whether the trail has faded out and is to be removed.
    pub finished: bool,
}

/// The most recent positions of a body.
#[derive(Debug)]
pub struct Trail {
    buffer: ConstGenericRingBuffer<(i64, i64), 512>,
    fadeout: FadeOut,
}

/// The vector with the raw coordinates `p`.
pub open spec fn point_of(p: (i64, i64)) -> Vec2 {
    Vec2 { x: Scalar { raw: p.0 }, y: Scalar { raw: p.1 } }
}

/// Fade-out for a trail that is to last `seconds`: none unless `seconds` is
/// positive.
pub open spec fn spec_fadeout(seconds: Scalar) -> FadeOut {
    if seconds@ > 0 {
        FadeOut::InSeconds { remaining: seconds, duration: seconds }
    } else {
        FadeOut::Never
    }
}

/// Time left of `remaining` once `delta` has passed. Time does not run
/// backwards, and no less than nothing is left.
pub open spec fn spec_remaining(remaining: Scalar, delta: Scalar) -> int {
    if delta@ <= 0 {
        remaining@
    } else if delta@ >= remaining@ {
        0
    } else {
        remaining@ - delta@
    }
}

/// The fade-out after `delta` seconds have passed.
pub open spec fn spec_ticked(fadeout: FadeOut, delta: Scalar) -> FadeOut {
    match fadeout {
        FadeOut::Never => FadeOut::Never,
        FadeOut::InSeconds { remaining, duration } => FadeOut::InSeconds {
            remaining: Scalar { raw: spec_remaining(remaining, delta) as i64 },
            duration,
        },
    }
}

/// Opacity and end of a trail with the given fade-out: a trail that stays is
/// opaque; a fading one is as opaque as the part of its time that is left,
/// and opaque where that part has no representation.
pub open spec fn spec_fade(fadeout: FadeOut) -> Fade {
    match fadeout {
        FadeOut::Never => Fade { alpha: Scalar { raw: SCALE }, finished: false },
        FadeOut::InSeconds { remaining, duration } => Fade {
            alpha: match remaining.spec_div(duration) {
                Some(ratio) => ratio,
                None => Scalar { raw: SCALE },
            },
            finished: remaining@ <= 0,
        },
    }
}

impl Clone for Trail {
    /// A trail with the same positions and the same fade-out.
    fn clone(&self) -> (trail: Trail)
        ensures
            trail.wf() == self.wf(),
            trail.points() == self.points(),
            trail.spec_fadeout() == self.spec_fadeout(),
    {
        Trail { buffer: buffer_clone(&self.buffer), fadeout: self.fadeout }
    }
}

impl Default for Trail {
    /// An empty trail that stays.
    fn default() -> (trail: Trail)
        ensures
            trail.wf(),
            trail.points() == Seq::<Vec2>::empty(),
            trail.spec_fadeout() == FadeOut::Never,
    {
        Trail::new()
    }
}

impl Trail {
    /// The positions held, oldest first.
    pub closed spec fn points(&self) -> Seq<Vec2> {
        buffer_points(self.buffer).map_values(|p: (i64, i64)| point_of(p))
    }

    /// The fade-out of this trail.
    pub closed spec fn spec_fadeout(&self) -> FadeOut {
        self.fadeout
    }

    /// What every trail satisfies: it holds no more positions than it has
    /// room for.
    pub closed spec fn wf(&self) -> bool {
        buffer_points(self.buffer).len() <= TRAIL_LENGTH
    }

    /// An empty trail that stays.
    pub fn new() -> (trail: Trail)
        ensures
            trail.wf(),
            trail.points() == Seq::<Vec2>::empty(),
            trail.spec_fadeout() == FadeOut::Never,
    {
        let trail = Trail { buffer: buffer_new(), fadeout: FadeOut::Never };
        assert(trail.points() =~= Seq::<Vec2>::empty());
        trail
    }

    /// A copy of this trail that fades out over `seconds`, or stays where
    /// `seconds` is not positive.
    pub fn with_fadeout(&self, seconds: Scalar) -> (trail: Trail)
        requires
            self.wf(),
        ensures
            trail.wf(),
            trail.points() == self.points(),
            trail.spec_fadeout() == spec_fadeout(seconds),
    {
        let fadeout = if seconds.raw > 0 {
            FadeOut::InSeconds { remaining: seconds, duration: seconds }
        } else {
            FadeOut::Never
        };
        Trail { buffer: buffer_clone(&self.buffer), fadeout }
    }

    /// Adds `vertex` as the newest position. A full trail forgets its oldest.
    pub fn add_vertex(&mut self, vertex: Vec2)
        requires
            old(self).wf(),
        ensures
            final(self).wf(),
            final(self).spec_fadeout() == old(self).spec_fadeout(),
            old(self).points().len() < TRAIL_LENGTH ==> final(self).points() == old(
                self,
            ).points().push(vertex),
            old(self).points().len() == TRAIL_LENGTH ==> final(self).points() == old(
                self,
            ).points().subrange(1, TRAIL_LENGTH as int).push(vertex),
    {
        let ghost before = buffer_points(self.buffer);
        buffer_push(&mut self.buffer, (vertex.x.raw, vertex.y.raw));
        proof {
            let after = buffer_points(self.buffer);
            let p = (vertex.x.raw, vertex.y.raw);
            assert(point_of(p) == vertex);
            if before.len() < 512 {
                assert(after.map_values(|p: (i64, i64)| point_of(p)) =~= before.map_values(
                    |p: (i64, i64)| point_of(p),
                ).push(vertex));
            } else {
                assert(after.map_values(|p: (i64, i64)| point_of(p)) =~= before.map_values(
                    |p: (i64, i64)| point_of(p),
                ).subrange(1, 512).push(vertex));
            }
        }
    }

    /// Number of positions held.
    pub fn len(&self) -> (n: usize)
        requires
            self.wf(),
        ensures
            n == self.points().len(),
            n <= TRAIL_LENGTH,
    {
        buffer_len(&self.buffer)
    }

    /// The positions held, oldest first.
    pub fn vertices(&self) -> (r: Vec<Vec2>)
        ensures
            r@ == self.points(),
    {
        let raw = buffer_to_vec(&self.buffer);
        let mut out: Vec<Vec2> = Vec::new();
        let mut i: usize = 0;
        while i < raw.len()
            invariant
                i <= raw@.len(),
                raw@ == buffer_points(self.buffer),
                out@.len() == i,
                forall|k: int| 0 <= k < i ==> #[trigger] out@[k] == point_of(raw@[k]),
            decreases raw@.len() - i,
        {
            let p = raw[i];
            out.push(Vec2 { x: Scalar { raw: p.0 }, y: Scalar { raw: p.1 } });
            i += 1;
        }
        assert(out@ =~= self.points());
        out
    }

    /// The fade-out of this trail.
    pub fn fadeout(&self) -> (r: FadeOut)
        ensures
            r == self.spec_fadeout(),
    {
        self.fadeout
    }

    /// Lets `delta` seconds pass and says how opaque the trail now is and
    /// whether it has faded out.
    pub fn tick(&mut self, delta: Scalar) -> (fade: Fade)
        requires
            old(self).wf(),
        ensures
            final(self).wf(),
            final(self).points() == old(self).points(),
            final(self).spec_fadeout() == spec_ticked(old(self).spec_fadeout(), delta),
            fade == spec_fade(spec_ticked(old(self).spec_fadeout(), delta)),
    {
        match self.fadeout {
            FadeOut::Never => Fade { alpha: Scalar { raw: 1_000_000 }, finished: false },
            FadeOut::InSeconds { remaining, duration } => {
                let left = if delta.raw <= 0 {
                    remaining
                } else if delta.raw >= remaining.raw {
                    Scalar { raw: 0 }
                } else {
                    Scalar { raw: remaining.raw - delta.raw }
                };
                self.fadeout = FadeOut::InSeconds { remaining: left, duration };
                let alpha = match left.div(duration) {
                    Some(ratio) => ratio,
                    None => Scalar { raw: 1_000_000 },
                };
                Fade { alpha, finished: left.raw <= 0 }
            },
        }
    }
}

} // verus!

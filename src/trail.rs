use vstd::prelude::*;

use crate::camera::{frame_camera, framed, Camera, MIN_POINTS_FOR_SCALE};
use crate::point::Point;

verus! {

/// What a trail buffer holds, as sequences: the points already drawn
/// (`confirmed`), the points received and not drawn yet (`pending`), and
/// every point ever pushed, in the order of the pushes (`pushed`).
pub ghost struct TrailView {
    pub confirmed: Seq<Point>,
    pub pending: Seq<Point>,
    pub pushed: Seq<Point>,
}

impl TrailView {
    /// No point is lost, duplicated or reordered: the drawn points followed
    /// by the waiting ones are exactly the pushed points, in push order.
    pub open spec fn in_push_order(self) -> bool {
        self.confirmed + self.pending == self.pushed
    }

    /// `post` is `self` after pushing `p`.
    pub open spec fn pushed_then(self, p: Point, post: TrailView) -> bool {
        &&& post.confirmed == self.confirmed
        &&& post.pending == self.pending.push(p)
        &&& post.pushed == self.pushed.push(p)
    }

    /// `post` is `self` after a drain that handed out `out`.
    pub open spec fn drained_then(self, out: Seq<Point>, post: TrailView) -> bool {
        &&& out == self.pending
        &&& post.confirmed == self.confirmed + self.pending
        &&& post.pending == Seq::<Point>::empty()
        &&& post.pushed == self.pushed
    }
}

/// The points of a trail: those already drawn, and those that a location
/// source has delivered since the last drain. Producers push; once per frame
/// the consumer drains the new points into the drawn trail. Every buffer
/// holds its points in push order (`TrailView::in_push_order`), which each
/// method states of the buffer it leaves or reads.
pub struct TrailBuffer {
    confirmed: Vec<Point>,
    pending: Vec<Point>,
    pushed: Ghost<Seq<Point>>,
}

impl View for TrailBuffer {
    type V = TrailView;

    closed spec fn view(&self) -> TrailView {
        TrailView { confirmed: self.confirmed@, pending: self.pending@, pushed: self.pushed@ }
    }
}

/// What one frame has to do: draw a marker at each new point, and set the
/// camera.
pub struct Frame {
    pub markers: Vec<Point>,
    pub camera: Camera,
}

impl TrailBuffer {
    /// Drawn points followed by waiting points are exactly the pushed points.
    #[verifier::type_invariant]
    spec fn points_in_push_order(self) -> bool {
        self.confirmed@ + self.pending@ == self.pushed@
    }

    /// An empty trail.
    pub fn new() -> (r: TrailBuffer)
        ensures
            r@.confirmed == Seq::<Point>::empty(),
            r@.pending == Seq::<Point>::empty(),
            r@.pushed == Seq::<Point>::empty(),
            r@.in_push_order(),
    {
        let r = TrailBuffer {
            confirmed: Vec::new(),
            pending: Vec::new(),
            pushed: Ghost(Seq::empty()),
        };
        proof {
            assert(r.confirmed@ + r.pending@ =~= r.pushed@);
        }
        r
    }

    /// Appends a point delivered by the location source to the pending points.
    pub fn push_pending(&mut self, p: Point)
        ensures
            old(self)@.pushed_then(p, final(self)@),
            final(self)@.in_push_order(),
    {
        let mut taken = TrailBuffer::new();
        std::mem::swap(&mut taken, self);
        proof {
            use_type_invariant(&taken);
        }
        let TrailBuffer { confirmed, mut pending, pushed } = taken;
        pending.push(p);
        let ghost now = pushed@.push(p);
        proof {
            assert(confirmed@ + pending@ =~= (confirmed@ + old(self).pending@).push(p));
        }
        *self = TrailBuffer { confirmed, pending, pushed: Ghost(now) };
    }

    /// Moves every pending point, in order, to the end of the drawn trail,
    /// and returns them: these are the points that need a marker. Afterwards
    /// nothing is pending, and the drawn trail is every point ever pushed.
    pub fn drain_pending(&mut self) -> (r: Vec<Point>)
        ensures
            old(self)@.drained_then(r@, final(self)@),
            final(self)@.confirmed.len() == old(self)@.confirmed.len() + old(self)@.pending.len(),
            final(self)@.in_push_order(),
            final(self)@.confirmed == final(self)@.pushed,
    {
        let mut taken = TrailBuffer::new();
        std::mem::swap(&mut taken, self);
        proof {
            use_type_invariant(&taken);
        }
        let TrailBuffer { mut confirmed, pending: out, pushed } = taken;
        let ghost start = confirmed@;
        let mut i: usize = 0;
        while i < out.len()
            invariant
                i <= out@.len(),
                confirmed@ == start + out@.take(i as int),
            decreases out@.len() - i,
        {
            confirmed.push(out[i]);
            proof {
                assert(out@.take(i as int + 1) =~= out@.take(i as int).push(out@[i as int]));
            }
            i = i + 1;
        }
        proof {
            assert(out@.take(i as int) =~= out@);
            assert(confirmed@ + Seq::<Point>::empty() =~= confirmed@);
        }
        *self = TrailBuffer { confirmed, pending: Vec::new(), pushed };
        out
    }

    /// The points drawn so far, oldest first.
    pub fn confirmed(&self) -> (r: &Vec<Point>)
        ensures
            r@ == self@.confirmed,
            self@.in_push_order(),
    {
        proof {
            use_type_invariant(self);
        }
        &self.confirmed
    }

    /// The points waiting for the next drain, oldest first.
    pub fn pending(&self) -> (r: &Vec<Point>)
        ensures
            r@ == self@.pending,
            self@.in_push_order(),
    {
        proof {
            use_type_invariant(self);
        }
        &self.pending
    }

    /// One frame: drains the pending points, which get markers, and frames
    /// the whole drawn trail in a viewport of `vw` by `vh` pixels, starting
    /// from the camera `prev`. The viewport's size matters only once the
    /// trail is long enough for the scale to follow it.
    pub fn tick(&mut self, vw: u32, vh: u32, prev: Camera) -> (r: Frame)
        requires
            old(self)@.confirmed.len() + old(self)@.pending.len() >= MIN_POINTS_FOR_SCALE ==> vw
                > 0 && vh > 0,
        ensures
            old(self)@.drained_then(r.markers@, final(self)@),
            final(self)@.in_push_order(),
            r.camera == framed(final(self)@.confirmed, vw, vh, prev),
    {
        let markers = self.drain_pending();
        let camera = frame_camera(&self.confirmed, vw, vh, prev);
        Frame { markers, camera }
    }
}

/// A push keeps the trail in push order.
pub proof fn lemma_push_keeps_push_order(pre: TrailView, p: Point, post: TrailView)
    requires
        pre.in_push_order(),
        pre.pushed_then(p, post),
    ensures
        post.in_push_order(),
{
    assert(post.confirmed + post.pending =~= (pre.confirmed + pre.pending).push(p));
}

/// A drain keeps the trail in push order and leaves nothing pending, so that
/// after it the drawn trail is exactly every pushed point, in push order.
pub proof fn lemma_drain_confirms_every_push(pre: TrailView, out: Seq<Point>, post: TrailView)
    requires
        pre.in_push_order(),
        pre.drained_then(out, post),
    ensures
        post.in_push_order(),
        post.pending.len() == 0,
        post.confirmed == post.pushed,
{
    assert(post.confirmed + post.pending =~= post.confirmed);
}

/// What a drain hands out is exactly what was pushed since the drain before
/// it: the drawn trail grows by the number of those pushes, none lost and
/// none twice.
pub proof fn lemma_drain_gains_pushes_since_last(
    last: TrailView,
    pushes: Seq<Point>,
    pre: TrailView,
    out: Seq<Point>,
    post: TrailView,
)
    requires
        last.in_push_order(),
        last.pending.len() == 0,
        pre.in_push_order(),
        pre.confirmed == last.confirmed,
        pre.pushed == last.pushed + pushes,
        pre.drained_then(out, post),
    ensures
        out == pushes,
        post.confirmed == last.confirmed + pushes,
        post.confirmed.len() == last.confirmed.len() + pushes.len(),
{
    assert(last.confirmed + last.pending =~= last.confirmed);
    assert((pre.confirmed + pre.pending).skip(pre.confirmed.len() as int) =~= pre.pending);
    assert((last.pushed + pushes).skip(last.pushed.len() as int) =~= pushes);
}

/// A second drain with no push in between hands out nothing and changes
/// nothing.
pub proof fn lemma_second_drain_is_noop(
    a: TrailView,
    out1: Seq<Point>,
    b: TrailView,
    out2: Seq<Point>,
    c: TrailView,
)
    requires
        a.drained_then(out1, b),
        b.drained_then(out2, c),
    ensures
        out2.len() == 0,
        c == b,
{
    assert(c.confirmed =~= b.confirmed);
}

} // verus!

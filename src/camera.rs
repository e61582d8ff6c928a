use vstd::prelude::*;

use crate::point::Point;

verus! {

/// The margin by which the framed scale exceeds the tightest fit, as the
/// fraction `MARGIN_NUM / MARGIN_DEN` (1.25): the trail fills four fifths of
/// the view along its tighter axis.
pub const MARGIN_NUM: u64 = 5;

pub const MARGIN_DEN: u64 = 4;

/// The scale, `MIN_SCALE_NUM / MIN_SCALE_DEN` rendering units per pixel, given
/// to a trail whose points all coincide: such a trail has no extent, and would
/// otherwise give a zero scale.
pub const MIN_SCALE_NUM: u64 = 1;

pub const MIN_SCALE_DEN: u64 = 100;

/// The number of points a trail needs before the camera scale follows it.
pub const MIN_POINTS_FOR_SCALE: usize = 3;

/// The smallest axis-aligned box that holds every point of a trail.
#[derive(Clone, Copy, Debug, PartialEq, Eq, Structural)]
pub struct BoundingBox {
    pub min_x: i32,
    pub max_x: i32,
    pub min_y: i32,
    pub max_y: i32,
}

/// A camera scale in rendering units per pixel, held as the exact fraction
/// `num / den`.
#[derive(Clone, Copy, Debug, PartialEq, Eq, Structural)]
pub struct Scale {
    pub num: u64,
    pub den: u64,
}

/// Where the camera looks and how far it is zoomed out.
///
/// The center is held doubled, so that the midpoint of two whole coordinates
/// stays exact: the camera looks at `(twice_center_x / 2, twice_center_y / 2)`.
#[derive(Clone, Copy, Debug, PartialEq, Eq, Structural)]
pub struct Camera {
    pub twice_center_x: i64,
    pub twice_center_y: i64,
    pub scale: Scale,
}

/// The box of a non-empty trail, grown one point at a time.
pub open spec fn bounds_of(s: Seq<Point>) -> BoundingBox
    recommends
        s.len() > 0,
    decreases s.len(),
{
    if s.len() <= 1 {
        BoundingBox { min_x: s[0].lat, max_x: s[0].lat, min_y: s[0].long, max_y: s[0].long }
    } else {
        let b = bounds_of(s.drop_last());
        let p = s.last();
        BoundingBox {
            min_x: if p.lat < b.min_x { p.lat } else { b.min_x },
            max_x: if p.lat > b.max_x { p.lat } else { b.max_x },
            min_y: if p.long < b.min_y { p.long } else { b.min_y },
            max_y: if p.long > b.max_y { p.long } else { b.max_y },
        }
    }
}

/// `b` holds every point of `s`, and each of its four sides touches one.
pub open spec fn is_tight_box(b: BoundingBox, s: Seq<Point>) -> bool {
    &&& forall|i: int|
        0 <= i < s.len() ==> b.min_x <= #[trigger] s[i].lat <= b.max_x && b.min_y <= s[i].long
            <= b.max_y
    &&& exists|i: int| 0 <= i < s.len() && s[i].lat == b.min_x
    &&& exists|i: int| 0 <= i < s.len() && s[i].lat == b.max_x
    &&& exists|i: int| 0 <= i < s.len() && s[i].long == b.min_y
    &&& exists|i: int| 0 <= i < s.len() && s[i].long == b.max_y
}

/// The scale at which a box of the given extent fills a viewport of
/// `vw` by `vh` pixels, with the margin: `max(width / vw, height / vh)`
/// times `MARGIN_NUM / MARGIN_DEN`, the tighter of the two axes deciding.
/// A box with no extent at all gets the fixed scale
/// `MIN_SCALE_NUM / MIN_SCALE_DEN`.
pub open spec fn fit_scale(b: BoundingBox, vw: u32, vh: u32) -> Scale {
    let w = b.max_x - b.min_x;
    let h = b.max_y - b.min_y;
    let n = if w * vh >= h * vw { w } else { h };
    let d = if w * vh >= h * vw { vw as int } else { vh as int };
    if w == 0 && h == 0 {
        Scale { num: MIN_SCALE_NUM, den: MIN_SCALE_DEN }
    } else {
        Scale { num: (n * MARGIN_NUM) as u64, den: (d * MARGIN_DEN) as u64 }
    }
}

/// The camera that frames the trail `s` in a viewport of `vw` by `vh` pixels.
/// An empty trail leaves the camera where it was; any other trail moves its
/// center to the middle of the trail's box; the scale follows only once the
/// trail holds `MIN_POINTS_FOR_SCALE` points.
pub open spec fn framed(s: Seq<Point>, vw: u32, vh: u32, prev: Camera) -> Camera {
    if s.len() == 0 {
        prev
    } else {
        let b = bounds_of(s);
        Camera {
            twice_center_x: (b.min_x + b.max_x) as i64,
            twice_center_y: (b.min_y + b.max_y) as i64,
            scale: if s.len() >= MIN_POINTS_FOR_SCALE {
                fit_scale(b, vw, vh)
            } else {
                prev.scale
            },
        }
    }
}

impl Camera {
    /// A camera at the origin at one rendering unit per pixel.
    pub fn new() -> (r: Camera)
        ensures
            r.twice_center_x == 0,
            r.twice_center_y == 0,
            r.scale == (Scale { num: 1, den: 1 }),
    {
        Camera { twice_center_x: 0, twice_center_y: 0, scale: Scale { num: 1, den: 1 } }
    }
}

/// The box of every point of `points`, `None` for an empty trail. One pass.
pub fn bounding_box(points: &Vec<Point>) -> (r: Option<BoundingBox>)
    ensures
        points@.len() == 0 <==> r is None,
        points@.len() > 0 ==> r == Some(bounds_of(points@)),
        points@.len() > 0 ==> is_tight_box(r.unwrap(), points@),
{
    if points.len() == 0 {
        return None;
    }
    let first = points[0];
    let mut b = BoundingBox {
        min_x: first.lat,
        max_x: first.lat,
        min_y: first.long,
        max_y: first.long,
    };
    let mut i: usize = 1;
    proof {
        assert(points@.take(1).len() == 1);
    }
    while i < points.len()
        invariant
            1 <= i <= points@.len(),
            b == bounds_of(points@.take(i as int)),
        decreases points@.len() - i,
    {
        let p = points[i];
        proof {
            assert(points@.take(i as int + 1).drop_last() =~= points@.take(i as int));
        }
        if p.lat < b.min_x {
            b.min_x = p.lat;
        }
        if p.lat > b.max_x {
            b.max_x = p.lat;
        }
        if p.long < b.min_y {
            b.min_y = p.long;
        }
        if p.long > b.max_y {
            b.max_y = p.long;
        }
        i = i + 1;
    }
    proof {
        assert(points@.take(i as int) =~= points@);
        lemma_bounds_of_is_tight(points@);
    }
    Some(b)
}

/// The scale that fits box `b` into a viewport of `vw` by `vh` pixels.
pub fn scale_to_fit(b: BoundingBox, vw: u32, vh: u32) -> (r: Scale)
    requires
        b.min_x <= b.max_x,
        b.min_y <= b.max_y,
        vw > 0,
        vh > 0,
    ensures
        r == fit_scale(b, vw, vh),
        r.num > 0,
        r.den > 0,
{
    let w: u64 = (b.max_x as i64 - b.min_x as i64) as u64;
    let h: u64 = (b.max_y as i64 - b.min_y as i64) as u64;
    assert(w * (vh as u64) <= 0xffff_ffff * 0xffff_ffffu64) by (nonlinear_arith)
        requires w <= 0xffff_ffff, vh <= 0xffff_ffff;
    assert(h * (vw as u64) <= 0xffff_ffff * 0xffff_ffffu64) by (nonlinear_arith)
        requires h <= 0xffff_ffff, vw <= 0xffff_ffff;
    let wide = w * (vh as u64) >= h * (vw as u64);
    let n: u64 = if wide { w } else { h };
    let d: u64 = if wide { vw as u64 } else { vh as u64 };
    if w == 0 && h == 0 {
        Scale { num: MIN_SCALE_NUM, den: MIN_SCALE_DEN }
    } else {
        assert(n > 0) by (nonlinear_arith)
            requires
                w > 0 || h > 0,
                vw > 0,
                vh > 0,
                wide == (w * vh >= h * vw),
                n == if wide { w } else { h },
        ;
        Scale { num: n * MARGIN_NUM, den: d * MARGIN_DEN }
    }
}

/// The camera that frames the trail `points` in a viewport of `vw` by `vh`
/// pixels, starting from the camera `prev`. The viewport's size is read only
/// once the trail is long enough for the scale to follow it.
pub fn frame_camera(points: &Vec<Point>, vw: u32, vh: u32, prev: Camera) -> (r: Camera)
    requires
        points@.len() >= MIN_POINTS_FOR_SCALE ==> vw > 0 && vh > 0,
    ensures
        r == framed(points@, vw, vh, prev),
        points@.len() < MIN_POINTS_FOR_SCALE ==> r.scale == prev.scale,
        points@.len() == 0 ==> r == prev,
        points@.len() >= MIN_POINTS_FOR_SCALE ==> r.scale.num > 0 && r.scale.den > 0,
{
    match bounding_box(points) {
        None => prev,
        Some(b) => {
            proof {
                lemma_bounds_ordered(points@);
            }
            let scale = if points.len() >= MIN_POINTS_FOR_SCALE {
                scale_to_fit(b, vw, vh)
            } else {
                prev.scale
            };
            Camera {
                twice_center_x: b.min_x as i64 + b.max_x as i64,
                twice_center_y: b.min_y as i64 + b.max_y as i64,
                scale,
            }
        },
    }
}

/// The box of a non-empty trail has its minimum at or below its maximum.
proof fn lemma_bounds_ordered(s: Seq<Point>)
    requires
        s.len() > 0,
    ensures
        bounds_of(s).min_x <= bounds_of(s).max_x,
        bounds_of(s).min_y <= bounds_of(s).max_y,
    decreases s.len(),
{
    if s.len() > 1 {
        lemma_bounds_ordered(s.drop_last());
    }
}

/// The box of a non-empty trail holds each of its points, and each side of
/// the box touches one of them: it is the smallest box that holds the trail.
pub proof fn lemma_bounds_of_is_tight(s: Seq<Point>)
    requires
        s.len() > 0,
    ensures
        is_tight_box(bounds_of(s), s),
    decreases s.len(),
{
    let b = bounds_of(s);
    if s.len() == 1 {
        assert(s[0].lat == b.min_x);
    } else {
        let t = s.drop_last();
        lemma_bounds_of_is_tight(t);
        let c = bounds_of(t);
        let last = s.len() - 1;
        assert forall|i: int| 0 <= i < s.len() implies b.min_x <= #[trigger] s[i].lat <= b.max_x
            && b.min_y <= s[i].long <= b.max_y by {
            if i < last {
                assert(s[i] == t[i]);
            }
        }
        let i1 = choose|i: int| 0 <= i < t.len() && t[i].lat == c.min_x;
        let i2 = choose|i: int| 0 <= i < t.len() && t[i].lat == c.max_x;
        let i3 = choose|i: int| 0 <= i < t.len() && t[i].long == c.min_y;
        let i4 = choose|i: int| 0 <= i < t.len() && t[i].long == c.max_y;
        assert(s[i1] == t[i1] && s[i2] == t[i2] && s[i3] == t[i3] && s[i4] == t[i4]);
        assert(s[last] == s.last());
    }
}

} // verus!

use vstd::prelude::*;
use ringbuf::traits::{Consumer, Observer, Producer};
use ringbuf::StaticRb;
use crate::point::Point;

verus! {

/// How many positions a trail retains.
pub const TRAIL_SIZE: usize = 50;

/// The ring buffer behind a trail: a `ringbuf::StaticRb` of `TRAIL_SIZE`
/// points. Its inside is hidden from the verifier; everything known about it
/// is stated over `trail_points` by the five functions below.
#[verifier::external_body]
pub struct TrailBuffer {
    inner: StaticRb<Point, TRAIL_SIZE>,
}

/// The points that a buffer holds, oldest first.
pub uninterp spec fn trail_points(buffer: TrailBuffer) -> Seq<Point>;

/// `StaticRb::default`: a buffer with both indices at zero, which holds
/// nothing.
#[verifier::external_body]
fn buffer_new() -> (buffer: TrailBuffer)
    ensures
        trail_points(buffer) == Seq::<Point>::empty(),
{
    TrailBuffer { inner: StaticRb::<Point, TRAIL_SIZE>::default() }
}

/// `Observer::is_full`: whether no vacant slot is left. A buffer never holds
/// more items than its capacity, so "not full" means strictly fewer.
#[verifier::external_body]
fn buffer_is_full(buffer: &TrailBuffer) -> (full: bool)
    ensures
        full <==> trail_points(*buffer).len() == TRAIL_SIZE,
        !full ==> trail_points(*buffer).len() < TRAIL_SIZE,
{
    buffer.inner.is_full()
}

/// `Consumer::try_pop`: removes and returns the eldest item, or returns
/// `None` and changes nothing when the buffer is empty.
#[verifier::external_body]
fn buffer_try_pop(buffer: &mut TrailBuffer) -> (popped: Option<Point>)
    ensures
        popped.is_some() <==> trail_points(*old(buffer)).len() > 0,
        popped matches Some(eldest) ==> eldest == trail_points(*old(buffer))[0] && trail_points(
            *final(buffer),
        ) == trail_points(*old(buffer)).drop_first(),
        popped.is_none() ==> trail_points(*final(buffer)) == trail_points(*old(buffer)),
{
    buffer.inner.try_pop()
}

/// `Producer::try_push`: appends the item as the newest one, or hands it back
/// in `Err` and changes nothing when the buffer is full.
#[verifier::external_body]
fn buffer_try_push(buffer: &mut TrailBuffer, point: Point) -> (pushed: Result<(), Point>)
    ensures
        pushed.is_ok() <==> trail_points(*old(buffer)).len() < TRAIL_SIZE,
        pushed.is_ok() ==> trail_points(*final(buffer)) == trail_points(*old(buffer)).push(point),
        pushed matches Err(back) ==> back == point && trail_points(*final(buffer)) == trail_points(
            *old(buffer),
        ),
{
    buffer.inner.try_push(point)
}

/// `Consumer::iter`: walks the items front to back, oldest first, without
/// removing any; the items are copied out into a vector.
#[verifier::external_body]
fn buffer_points(buffer: &TrailBuffer) -> (points: Vec<Point>)
    ensures
        points@ == trail_points(*buffer),
{
    buffer.inner.iter().copied().collect()
}

/// What a trail holds after one more position arrives: the position is
/// appended, and if the trail was at capacity its oldest entry leaves first.
pub open spec fn evicting_push(points: Seq<Point>, point: Point) -> Seq<Point> {
    if points.len() >= TRAIL_SIZE {
        points.drop_first().push(point)
    } else {
        points.push(point)
    }
}

/// What a trail holds after a run of positions arrived one by one.
pub open spec fn evicting_push_all(points: Seq<Point>, arrivals: Seq<Point>) -> Seq<Point>
    decreases arrivals.len(),
{
    if arrivals.len() == 0 {
        points
    } else {
        evicting_push(evicting_push_all(points, arrivals.drop_last()), arrivals.last())
    }
}

/// The last `count` entries of a sequence.
pub open spec fn suffix(points: Seq<Point>, count: int) -> Seq<Point> {
    points.subrange(points.len() - count, points.len() as int)
}

/// The smaller of two lengths.
pub open spec fn smaller(a: int, b: int) -> int {
    if a <= b {
        a
    } else {
        b
    }
}

/// A trail that starts within capacity retains, after any run of arrivals,
/// exactly the most recent positions: the last `TRAIL_SIZE` of everything it
/// has seen, or all of it while that is still fewer.
pub proof fn lemma_trail_retains_most_recent(points: Seq<Point>, arrivals: Seq<Point>)
    requires
        points.len() <= TRAIL_SIZE,
    ensures
        evicting_push_all(points, arrivals) == suffix(
            points + arrivals,
            smaller(TRAIL_SIZE as int, (points.len() + arrivals.len()) as int),
        ),
    decreases arrivals.len(),
{
    let all = points + arrivals;
    if arrivals.len() == 0 {
        assert(all =~= points);
        assert(suffix(all, points.len() as int) =~= points);
    } else {
        let earlier = arrivals.drop_last();
        let newest = arrivals.last();
        lemma_trail_retains_most_recent(points, earlier);
        let before = evicting_push_all(points, earlier);
        let seen = points + earlier;
        assert(all =~= seen.push(newest));
        let kept = smaller(TRAIL_SIZE as int, seen.len() as int);
        assert(before == suffix(seen, kept));
        assert(evicting_push(before, newest) =~= suffix(
            all,
            smaller(TRAIL_SIZE as int, all.len() as int),
        ));
    }
}

/// Pushing one position more than the capacity into an empty trail leaves
/// exactly `TRAIL_SIZE` entries: the first position is gone and the second
/// is now the oldest.
pub proof fn lemma_trail_eviction(arrivals: Seq<Point>)
    requires
        arrivals.len() == TRAIL_SIZE + 1,
    ensures
        evicting_push_all(Seq::<Point>::empty(), arrivals) == arrivals.drop_first(),
        evicting_push_all(Seq::<Point>::empty(), arrivals).len() == TRAIL_SIZE,
        evicting_push_all(Seq::<Point>::empty(), arrivals)[0] == arrivals[1],
{
    let empty = Seq::<Point>::empty();
    lemma_trail_retains_most_recent(empty, arrivals);
    assert(empty + arrivals =~= arrivals);
    assert(suffix(arrivals, TRAIL_SIZE as int) =~= arrivals.drop_first());
}

/// One line of a trail's polyline: it joins two consecutive positions.
/// `index` counts the line from the oldest end and `count` is the number of
/// positions in the trail, so that `index / count` is the line's opacity.
#[derive(Clone, Copy, PartialEq, Eq, Structural, Debug)]
pub struct TrailSegment {
    pub from: Point,
    pub to: Point,
    pub index: usize,
    pub count: usize,
}

/// The polyline through a trail's positions in arrival order: one segment
/// for each pair of neighbours.
pub open spec fn polyline(points: Seq<Point>) -> Seq<TrailSegment> {
    Seq::new(
        if points.len() == 0 { 0 } else { (points.len() - 1) as nat },
        |i: int|
            TrailSegment {
                from: points[i],
                to: points[i + 1],
                index: i as usize,
                count: points.len() as usize,
            },
    )
}

/// The recent positions of one particle together with its display colour,
/// given as a slot of the palette.
pub struct Trail {
    buffer: TrailBuffer,
    color: usize,
}

/// What a trail is to its users: the retained positions, oldest first, and
/// the palette slot that they are drawn in.
pub struct TrailView {
    pub points: Seq<Point>,
    pub color: usize,
}

impl View for Trail {
    type V = TrailView;

    closed spec fn view(&self) -> TrailView {
        TrailView { points: trail_points(self.buffer), color: self.color }
    }
}

impl Trail {
    /// A trail never holds more than `TRAIL_SIZE` positions.
    pub open spec fn wf(&self) -> bool {
        self@.points.len() <= TRAIL_SIZE
    }

    /// An empty trail of the given colour.
    pub fn new(color: usize) -> (trail: Trail)
        ensures
            trail@ == (TrailView { points: Seq::<Point>::empty(), color }),
            trail.wf(),
    {
        Trail { buffer: buffer_new(), color }
    }

    /// The palette slot that the trail is drawn in.
    pub fn color(&self) -> (color: usize)
        ensures
            color == self@.color,
    {
        self.color
    }

    /// Records one more position, evicting the oldest if the trail is full.
    pub fn push(&mut self, point: Point)
        ensures
            final(self)@ == (TrailView {
                points: evicting_push(old(self)@.points, point),
                color: old(self)@.color,
            }),
            final(self).wf(),
    {
        if buffer_is_full(&self.buffer) {
            let _ = buffer_try_pop(&mut self.buffer);
        }
        let _ = buffer_try_push(&mut self.buffer, point);
    }

    /// The retained positions, oldest first.
    pub fn points(&self) -> (points: Vec<Point>)
        ensures
            points@ == self@.points,
    {
        buffer_points(&self.buffer)
    }

    /// The number of retained positions.
    pub fn len(&self) -> (len: usize)
        ensures
            len == self@.points.len(),
    {
        buffer_points(&self.buffer).len()
    }

    /// The lines to draw for this trail, oldest first.
    pub fn segments(&self) -> (segments: Vec<TrailSegment>)
        ensures
            segments@ == polyline(self@.points),
    {
        let points = buffer_points(&self.buffer);
        let count = points.len();
        let mut segments: Vec<TrailSegment> = Vec::new();
        if count == 0 {
            assert(segments@ =~= polyline(points@));
            return segments;
        }
        let mut i: usize = 0;
        while i < count - 1
            invariant
                count == points@.len(),
                count > 0,
                i <= count - 1,
                segments@.len() == i,
                forall|k: int| 0 <= k < i ==> segments@[k] == polyline(points@)[k],
            decreases count - i,
        {
            segments.push(TrailSegment { from: points[i], to: points[i + 1], index: i, count });
            i += 1;
        }
        assert(segments@ =~= polyline(points@));
        segments
    }
}

} // verus!

use vstd::prelude::*;
use crate::point::Point;

verus! {

/// The number of display colours; particles take them in turn.
pub const PALETTE_SIZE: usize = 9;

/// The radius of a particle: the encoding of 10.
pub const BALL_RADIUS: u32 = 0x4120_0000;

/// The radius of the boundary circle: the encoding of 200.
pub const OUTER_RADIUS: u32 = 0x4348_0000;

/// The sub-step size that a simulation starts with: the encoding of one
/// millionth.
pub const INITIAL_STEP_SIZE: u32 = 0x3586_37bd;

/// A point mass: where it is, how fast it moves, and the palette slot it is
/// drawn in.
#[derive(Clone, Copy, PartialEq, Eq, Structural, Debug)]
pub struct Ball {
    pub pos: Point,
    pub vel: Point,
    pub color: usize,
}

/// A pointer click: where it fell, and whether that place lies within the
/// effective boundary circle, which the host has measured.
#[derive(Clone, Copy, PartialEq, Eq, Structural, Debug)]
pub struct Click {
    pub position: Point,
    pub inside: bool,
}

/// A circle to draw.
#[derive(Clone, Copy, PartialEq, Eq, Structural, Debug)]
pub struct Circle {
    pub center: Point,
    pub radius: u32,
    pub color: usize,
}

/// What a simulation shows: the radius of the boundary, and one filled
/// circle for each particle in creation order.
pub struct Scene {
    pub outer_radius: u32,
    pub circles: Vec<Circle>,
}

/// The particles and the geometry they live in. `radius`, `outer_radius` and
/// `step_size` are encodings of single-precision numbers.
pub struct Simulation {
    pub balls: Vec<Ball>,
    pub radius: u32,
    pub outer_radius: u32,
    pub step_size: u32,
}

/// Whether `to` can be the state of a particle that started in `from` and
/// went through exactly `steps` calls of the integrator, each fed with the
/// result of the one before. A state is a position and a velocity.
pub open spec fn reaches<F: Fn(Point, Point) -> (Point, Point)>(
    integrate: F,
    steps: nat,
    from: (Point, Point),
    to: (Point, Point),
) -> bool
    decreases steps,
{
    if steps == 0 {
        to == from
    } else {
        exists|pos: Point, vel: Point|
            reaches(integrate, (steps - 1) as nat, from, (pos, vel))
                && #[trigger] integrate.ensures((pos, vel), to)
    }
}

/// Whether the integrator gives one result only for each state.
pub open spec fn deterministic<F: Fn(Point, Point) -> (Point, Point)>(integrate: F) -> bool {
    forall|from: (Point, Point), one: (Point, Point), other: (Point, Point)|
        #[trigger] integrate.ensures(from, one) && #[trigger] integrate.ensures(from, other) ==> one
            == other
}

/// The position and velocity of a particle.
pub open spec fn motion(ball: Ball) -> (Point, Point) {
    (ball.pos, ball.vel)
}

/// Whether `after` can be what `before` becomes when every particle goes
/// through exactly `steps` calls of the integrator: the same particles in
/// the same order and colours, each moved on its own.
pub open spec fn advanced<F: Fn(Point, Point) -> (Point, Point)>(
    integrate: F,
    steps: nat,
    before: Seq<Ball>,
    after: Seq<Ball>,
) -> bool {
    &&& after.len() == before.len()
    &&& forall|i: int|
        0 <= i < before.len() ==> (#[trigger] after[i]).color == before[i].color && reaches(
            integrate,
            steps,
            motion(before[i]),
            motion(after[i]),
        )
}

/// The particles after one more was created at rest at `position`: it takes
/// the palette slot that follows the slot of the particle before it.
pub open spec fn spawned(balls: Seq<Ball>, position: Point) -> Seq<Ball> {
    balls.push(
        Ball {
            pos: position,
            vel: Point::origin(),
            color: (balls.len() % (PALETTE_SIZE as nat)) as usize,
        },
    )
}

/// Whether the particles wear the palette in creation order.
pub open spec fn palette_ordered(balls: Seq<Ball>) -> bool {
    forall|i: int| 0 <= i < balls.len() ==> (#[trigger] balls[i]).color == i % (PALETTE_SIZE as int)
}

/// One more call of the integrator extends a run by one step.
pub proof fn lemma_reaches_step<F: Fn(Point, Point) -> (Point, Point)>(
    integrate: F,
    steps: nat,
    from: (Point, Point),
    mid: (Point, Point),
    to: (Point, Point),
)
    requires
        reaches(integrate, steps, from, mid),
        integrate.ensures(mid, to),
    ensures
        reaches(integrate, steps + 1, from, to),
{
    assert(reaches(integrate, ((steps + 1) - 1) as nat, from, (mid.0, mid.1)));
    assert(integrate.ensures((mid.0, mid.1), to));
}

/// A run of `first` steps followed by a run of `second` steps is a run of
/// `first + second` steps.
pub proof fn lemma_reaches_compose<F: Fn(Point, Point) -> (Point, Point)>(
    integrate: F,
    first: nat,
    second: nat,
    from: (Point, Point),
    mid: (Point, Point),
    to: (Point, Point),
)
    requires
        reaches(integrate, first, from, mid),
        reaches(integrate, second, mid, to),
    ensures
        reaches(integrate, first + second, from, to),
    decreases second,
{
    if second > 0 {
        let last = choose|last: (Point, Point)|
            reaches(integrate, (second - 1) as nat, mid, last) && #[trigger] integrate.ensures(
                last,
                to,
            );
        lemma_reaches_compose(integrate, first, (second - 1) as nat, from, mid, last);
        lemma_reaches_step(integrate, (first + second - 1) as nat, from, last, to);
    }
}

/// A run of `first + second` steps passes, after `first` of them, through a
/// state from which `second` steps lead to its end.
pub proof fn lemma_reaches_split<F: Fn(Point, Point) -> (Point, Point)>(
    integrate: F,
    first: nat,
    second: nat,
    from: (Point, Point),
    to: (Point, Point),
)
    requires
        reaches(integrate, first + second, from, to),
    ensures
        exists|mid: (Point, Point)|
            #[trigger] reaches(integrate, first, from, mid) && reaches(integrate, second, mid, to),
    decreases second,
{
    if second == 0 {
        assert(reaches(integrate, first, from, to) && reaches(integrate, second, to, to));
    } else {
        let last = choose|last: (Point, Point)|
            reaches(integrate, (first + second - 1) as nat, from, last)
                && #[trigger] integrate.ensures(last, to);
        lemma_reaches_split(integrate, first, (second - 1) as nat, from, last);
        let mid = choose|mid: (Point, Point)|
            #[trigger] reaches(integrate, first, from, mid) && reaches(
                integrate,
                (second - 1) as nat,
                mid,
                last,
            );
        lemma_reaches_step(integrate, (second - 1) as nat, mid, last, to);
        assert(reaches(integrate, first, from, mid) && reaches(integrate, second, mid, to));
    }
}

/// With a deterministic integrator a run of a given length from a given
/// state has one end only.
pub proof fn lemma_reaches_unique<F: Fn(Point, Point) -> (Point, Point)>(
    integrate: F,
    steps: nat,
    from: (Point, Point),
    one: (Point, Point),
    other: (Point, Point),
)
    requires
        deterministic(integrate),
        reaches(integrate, steps, from, one),
        reaches(integrate, steps, from, other),
    ensures
        one == other,
    decreases steps,
{
    if steps > 0 {
        let a = choose|a: (Point, Point)|
            reaches(integrate, (steps - 1) as nat, from, a) && #[trigger] integrate.ensures(
                a,
                one,
            );
        let b = choose|b: (Point, Point)|
            reaches(integrate, (steps - 1) as nat, from, b) && #[trigger] integrate.ensures(
                b,
                other,
            );
        lemma_reaches_unique(integrate, (steps - 1) as nat, from, a, b);
    }
}

/// An update of zero sub-steps changes no particle: a frame shorter than one
/// sub-step calls the integrator not at all.
pub proof fn lemma_no_steps_no_change<F: Fn(Point, Point) -> (Point, Point)>(
    integrate: F,
    before: Seq<Ball>,
    after: Seq<Ball>,
)
    requires
        advanced(integrate, 0, before, after),
    ensures
        after == before,
{
    assert forall|i: int| 0 <= i < before.len() implies after[i] == before[i] by {
        assert(after[i].color == before[i].color);
        assert(motion(after[i]) == motion(before[i]));
    }
    assert(after =~= before);
}

/// Two updates in a row are one update of as many sub-steps as both
/// together.
pub proof fn lemma_updates_compose<F: Fn(Point, Point) -> (Point, Point)>(
    integrate: F,
    first: nat,
    second: nat,
    before: Seq<Ball>,
    between: Seq<Ball>,
    after: Seq<Ball>,
)
    requires
        advanced(integrate, first, before, between),
        advanced(integrate, second, between, after),
    ensures
        advanced(integrate, first + second, before, after),
{
    assert forall|i: int| 0 <= i < before.len() implies (#[trigger] after[i]).color
        == before[i].color && reaches(
        integrate,
        first + second,
        motion(before[i]),
        motion(after[i]),
    ) by {
        assert(between[i].color == before[i].color);
        assert(after[i].color == between[i].color);
        lemma_reaches_compose(
            integrate,
            first,
            second,
            motion(before[i]),
            motion(between[i]),
            motion(after[i]),
        );
    }
}

/// Sub-step determinism. With a deterministic integrator, two updates in a
/// row end in the very state in which one update of as many sub-steps as
/// both together ends.
pub proof fn lemma_two_updates_equal_one<F: Fn(Point, Point) -> (Point, Point)>(
    integrate: F,
    first: nat,
    second: nat,
    before: Seq<Ball>,
    between: Seq<Ball>,
    in_two: Seq<Ball>,
    in_one: Seq<Ball>,
)
    requires
        deterministic(integrate),
        advanced(integrate, first, before, between),
        advanced(integrate, second, between, in_two),
        advanced(integrate, first + second, before, in_one),
    ensures
        in_two == in_one,
{
    lemma_updates_compose(integrate, first, second, before, between, in_two);
    assert forall|i: int| 0 <= i < before.len() implies in_two[i] == in_one[i] by {
        assert(in_two[i].color == before[i].color);
        assert(in_one[i].color == before[i].color);
        lemma_reaches_unique(
            integrate,
            first + second,
            motion(before[i]),
            motion(in_two[i]),
            motion(in_one[i]),
        );
    }
    assert(in_two =~= in_one);
}

/// What every call of the integrator keeps true of a state, a run of any
/// length keeps true.
pub proof fn lemma_reaches_preserves<F: Fn(Point, Point) -> (Point, Point)>(
    integrate: F,
    steps: nat,
    kept: spec_fn((Point, Point)) -> bool,
    from: (Point, Point),
    to: (Point, Point),
)
    requires
        forall|a: (Point, Point), b: (Point, Point)|
            kept(a) && #[trigger] integrate.ensures(a, b) ==> kept(b),
        kept(from),
        reaches(integrate, steps, from, to),
    ensures
        kept(to),
    decreases steps,
{
    if steps > 0 {
        let last = choose|last: (Point, Point)|
            reaches(integrate, (steps - 1) as nat, from, last) && #[trigger] integrate.ensures(
                last,
                to,
            );
        lemma_reaches_preserves(integrate, (steps - 1) as nat, kept, from, last);
    }
}

/// What every call of the integrator keeps true of a particle's state, an
/// update of any number of sub-steps keeps true of every particle. A
/// boundary that the integrator never lets a particle leave thus holds every
/// particle after every update.
pub proof fn lemma_update_preserves<F: Fn(Point, Point) -> (Point, Point)>(
    integrate: F,
    steps: nat,
    kept: spec_fn((Point, Point)) -> bool,
    before: Seq<Ball>,
    after: Seq<Ball>,
)
    requires
        forall|a: (Point, Point), b: (Point, Point)|
            kept(a) && #[trigger] integrate.ensures(a, b) ==> kept(b),
        forall|i: int| 0 <= i < before.len() ==> kept(motion(#[trigger] before[i])),
        advanced(integrate, steps, before, after),
    ensures
        forall|i: int| 0 <= i < after.len() ==> kept(motion(#[trigger] after[i])),
{
    assert forall|i: int| 0 <= i < after.len() implies kept(motion(#[trigger] after[i])) by {
        assert(kept(motion(before[i])));
        lemma_reaches_preserves(integrate, steps, kept, motion(before[i]), motion(after[i]));
    }
}

/// Creating a particle keeps the palette in creation order.
pub proof fn lemma_spawn_keeps_palette_order(balls: Seq<Ball>, position: Point)
    requires
        palette_ordered(balls),
    ensures
        palette_ordered(spawned(balls, position)),
{
    let grown = spawned(balls, position);
    assert forall|i: int| 0 <= i < grown.len() implies (#[trigger] grown[i]).color == i % (
    PALETTE_SIZE as int) by {
        if i < balls.len() {
            assert(grown[i] == balls[i]);
        }
    }
}

/// Moving the particles keeps the palette in creation order.
pub proof fn lemma_update_keeps_palette_order<F: Fn(Point, Point) -> (Point, Point)>(
    integrate: F,
    steps: nat,
    before: Seq<Ball>,
    after: Seq<Ball>,
)
    requires
        palette_ordered(before),
        advanced(integrate, steps, before, after),
    ensures
        palette_ordered(after),
{
    assert forall|i: int| 0 <= i < after.len() implies (#[trigger] after[i]).color == i % (
    PALETTE_SIZE as int) by {
        assert(after[i].color == before[i].color);
    }
}

impl Ball {
    /// Whether the particle's position and velocity are finite.
    pub open spec fn is_finite(self) -> bool {
        self.pos.is_finite() && self.vel.is_finite()
    }

    /// Whether the particle's position and velocity are finite.
    pub fn finite(&self) -> (finite: bool)
        ensures
            finite == self.is_finite(),
    {
        self.pos.finite() && self.vel.finite()
    }

    /// Moves the particle through exactly `steps` calls of the integrator.
    /// Its colour stays.
    pub fn advance<F: Fn(Point, Point) -> (Point, Point)>(&mut self, steps: usize, integrate: &F)
        requires
            forall|pos: Point, vel: Point| integrate.requires((pos, vel)),
        ensures
            final(self).color == old(self).color,
            reaches(*integrate, steps as nat, motion(*old(self)), motion(*final(self))),
    {
        let mut done: usize = 0;
        while done < steps
            invariant
                done <= steps,
                forall|pos: Point, vel: Point| integrate.requires((pos, vel)),
                self.color == old(self).color,
                reaches(*integrate, done as nat, motion(*old(self)), motion(*self)),
            decreases steps - done,
        {
            let ghost mid = motion(*self);
            let (pos, vel) = integrate(self.pos, self.vel);
            self.pos = pos;
            self.vel = vel;
            proof {
                lemma_reaches_step(*integrate, done as nat, motion(*old(self)), mid, (pos, vel));
            }
            done += 1;
        }
    }
}

impl Simulation {
    /// A simulation without particles, with the standard geometry and the
    /// initial sub-step size.
    pub fn new() -> (simulation: Simulation)
        ensures
            simulation.balls@ == Seq::<Ball>::empty(),
            simulation.radius == BALL_RADIUS,
            simulation.outer_radius == OUTER_RADIUS,
            simulation.step_size == INITIAL_STEP_SIZE,
    {
        Simulation {
            balls: Vec::new(),
            radius: BALL_RADIUS,
            outer_radius: OUTER_RADIUS,
            step_size: INITIAL_STEP_SIZE,
        }
    }

    /// Runs every particle through exactly `steps` calls of the integrator.
    /// The particles do not influence one another, and nothing else changes.
    pub fn update<F: Fn(Point, Point) -> (Point, Point)>(&mut self, steps: usize, integrate: &F)
        requires
            forall|pos: Point, vel: Point| integrate.requires((pos, vel)),
        ensures
            advanced(*integrate, steps as nat, old(self).balls@, final(self).balls@),
            final(self).radius == old(self).radius,
            final(self).outer_radius == old(self).outer_radius,
            final(self).step_size == old(self).step_size,
    {
        let count = self.balls.len();
        let mut i: usize = 0;
        while i < count
            invariant
                i <= count,
                count == old(self).balls@.len(),
                self.balls@.len() == count,
                forall|pos: Point, vel: Point| integrate.requires((pos, vel)),
                self.radius == old(self).radius,
                self.outer_radius == old(self).outer_radius,
                self.step_size == old(self).step_size,
                forall|k: int|
                    0 <= k < i ==> (#[trigger] self.balls@[k]).color == old(self).balls@[k].color
                        && reaches(
                        *integrate,
                        steps as nat,
                        motion(old(self).balls@[k]),
                        motion(self.balls@[k]),
                    ),
                forall|k: int| i <= k < count ==> self.balls@[k] == old(self).balls@[k],
            decreases count - i,
        {
            let mut ball = self.balls[i];
            ball.advance(steps, integrate);
            self.balls.set(i, ball);
            i += 1;
        }
    }

    /// Creates a particle at rest at `position` in the next palette slot if
    /// the position lies inside the effective boundary circle. A position
    /// outside is ignored.
    pub fn spawn(&mut self, position: Point, inside: bool)
        ensures
            inside ==> final(self).balls@ == spawned(old(self).balls@, position),
            !inside ==> final(self).balls@ == old(self).balls@,
            final(self).radius == old(self).radius,
            final(self).outer_radius == old(self).outer_radius,
            final(self).step_size == old(self).step_size,
    {
        if inside {
            let color = self.balls.len() % PALETTE_SIZE;
            self.balls.push(Ball { pos: position, vel: Point::zero(), color });
        }
    }

    /// Takes in what the pointer did during a frame: a click creates a
    /// particle where it fell, as `spawn` does.
    pub fn input(&mut self, click: Option<Click>)
        ensures
            click matches Some(c) ==> (c.inside ==> final(self).balls@ == spawned(
                old(self).balls@,
                c.position,
            )) && (!c.inside ==> final(self).balls@ == old(self).balls@),
            click.is_none() ==> final(self).balls@ == old(self).balls@,
            final(self).radius == old(self).radius,
            final(self).outer_radius == old(self).outer_radius,
            final(self).step_size == old(self).step_size,
    {
        match click {
            Some(c) => self.spawn(c.position, c.inside),
            None => {},
        }
    }

    /// The first particle, in creation order, whose position or velocity has
    /// left the finite numbers, if there is one. Such a particle shows that
    /// the integrator has degenerated.
    pub fn first_non_finite(&self) -> (found: Option<usize>)
        ensures
            found.is_none() <==> forall|i: int|
                0 <= i < self.balls@.len() ==> (#[trigger] self.balls@[i]).is_finite(),
            found matches Some(at) ==> at < self.balls@.len() && !self.balls@[at as int].is_finite()
                && forall|i: int| 0 <= i < at ==> (#[trigger] self.balls@[i]).is_finite(),
    {
        let mut i: usize = 0;
        while i < self.balls.len()
            invariant
                i <= self.balls@.len(),
                forall|k: int| 0 <= k < i ==> (#[trigger] self.balls@[k]).is_finite(),
            decreases self.balls@.len() - i,
        {
            let ball = self.balls[i];
            if !ball.finite() {
                return Some(i);
            }
            i += 1;
        }
        None
    }

    /// What there is to draw: the boundary, and a circle of the particle
    /// radius at each particle's position, in creation order.
    pub fn draw(&self) -> (scene: Scene)
        ensures
            scene.outer_radius == self.outer_radius,
            scene.circles@ == Seq::new(
                self.balls@.len(),
                |i: int|
                    Circle {
                        center: self.balls@[i].pos,
                        radius: self.radius,
                        color: self.balls@[i].color,
                    },
            ),
    {
        let mut circles: Vec<Circle> = Vec::new();
        let mut i: usize = 0;
        while i < self.balls.len()
            invariant
                i <= self.balls@.len(),
                circles@.len() == i,
                forall|k: int|
                    0 <= k < i ==> circles@[k] == (Circle {
                        center: self.balls@[k].pos,
                        radius: self.radius,
                        color: self.balls@[k].color,
                    }),
            decreases self.balls@.len() - i,
        {
            let ball = self.balls[i];
            circles.push(Circle { center: ball.pos, radius: self.radius, color: ball.color });
            i += 1;
        }
        assert(circles@ =~= Seq::new(
            self.balls@.len(),
            |i: int|
                Circle {
                    center: self.balls@[i].pos,
                    radius: self.radius,
                    color: self.balls@[i].color,
                },
        ));
        Scene { outer_radius: self.outer_radius, circles }
    }
}

} // verus!

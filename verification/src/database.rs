use vstd::prelude::*;
use crate::history::{History, HistoryView, Sample, Segment, GRAPH_SIZE};
use crate::point::Point;
use crate::simulation::{palette_ordered, Ball, Simulation, PALETTE_SIZE};
use crate::trail::{evicting_push, polyline, Trail, TrailSegment, TrailView, TRAIL_SIZE};

verus! {

/// Which of the four overlays are shown.
#[derive(Clone, Copy, PartialEq, Eq, Structural, Debug)]
pub struct Visibility {
    pub energy: bool,
    pub frame_time: bool,
    pub trails: bool,
    pub info: bool,
}

/// Which of the four toggle keys went down during a frame.
#[derive(Clone, Copy, PartialEq, Eq, Structural, Debug)]
pub struct Toggles {
    pub energy: bool,
    pub frame_time: bool,
    pub trails: bool,
    pub info: bool,
}

impl Visibility {
    /// Every overlay shown.
    pub open spec fn everything() -> Visibility {
        Visibility { energy: true, frame_time: true, trails: true, info: true }
    }

    /// The visibility after the keys: each overlay whose key went down is
    /// flipped, the others stay.
    pub open spec fn toggled(self, pressed: Toggles) -> Visibility {
        Visibility {
            energy: self.energy != pressed.energy,
            frame_time: self.frame_time != pressed.frame_time,
            trails: self.trails != pressed.trails,
            info: self.info != pressed.info,
        }
    }

    /// Flips each overlay whose key went down.
    pub fn toggle(self, pressed: Toggles) -> (visibility: Visibility)
        ensures
            visibility == self.toggled(pressed),
    {
        Visibility {
            energy: self.energy != pressed.energy,
            frame_time: self.frame_time != pressed.frame_time,
            trails: self.trails != pressed.trails,
            info: self.info != pressed.info,
        }
    }
}

/// Pressing the same keys twice brings back the visibility there was.
pub proof fn lemma_toggle_twice(visibility: Visibility, pressed: Toggles)
    ensures
        visibility.toggled(pressed).toggled(pressed) == visibility,
{
}

/// The trail that particle `i` has before it is first observed: empty, in
/// the palette slot of its place in creation order.
pub open spec fn fresh_trail(i: int) -> TrailView {
    TrailView { points: Seq::<Point>::empty(), color: (i % (PALETTE_SIZE as int)) as usize }
}

/// The trails after the particles were observed once. Every particle without
/// a trail gets a fresh one, and the trail of every particle takes in the
/// particle's position, at the cost of its oldest entry if it is full. A
/// trail without a particle stays as it is.
pub open spec fn observe(trails: Seq<TrailView>, balls: Seq<Ball>) -> Seq<TrailView> {
    Seq::new(
        if trails.len() >= balls.len() {
            trails.len()
        } else {
            balls.len()
        },
        |i: int|
            {
                let trail = if i < trails.len() {
                    trails[i]
                } else {
                    fresh_trail(i)
                };
                if i < balls.len() {
                    TrailView {
                        points: evicting_push(trail.points, balls[i].pos),
                        color: trail.color,
                    }
                } else {
                    trail
                }
            },
    )
}

/// Whether no trail holds more than `TRAIL_SIZE` positions.
pub open spec fn within_capacity(trails: Seq<TrailView>) -> bool {
    forall|i: int| 0 <= i < trails.len() ==> (#[trigger] trails[i]).points.len() <= TRAIL_SIZE
}

/// Whether the trails wear the palette in creation order.
pub open spec fn trails_palette_ordered(trails: Seq<TrailView>) -> bool {
    forall|i: int|
        0 <= i < trails.len() ==> (#[trigger] trails[i]).color == i % (PALETTE_SIZE as int)
}

/// Observing keeps the trails in palette order, so that every particle of a
/// simulation in palette order is followed by a trail of its own colour.
pub proof fn lemma_trails_follow_palette(trails: Seq<TrailView>, balls: Seq<Ball>)
    requires
        trails_palette_ordered(trails),
        palette_ordered(balls),
    ensures
        trails_palette_ordered(observe(trails, balls)),
        forall|i: int|
            0 <= i < balls.len() ==> (#[trigger] observe(trails, balls)[i]).color == balls[i].color,
{
    let after = observe(trails, balls);
    assert forall|i: int| 0 <= i < after.len() implies (#[trigger] after[i]).color == i % (
    PALETTE_SIZE as int) by {
        if i < trails.len() {
            assert(trails[i].color == i % (PALETTE_SIZE as int));
        }
    }
    assert forall|i: int| 0 <= i < balls.len() implies (#[trigger] after[i]).color
        == balls[i].color by {
        assert(after[i].color == i % (PALETTE_SIZE as int));
    }
}

/// Observing lets no trail grow beyond its capacity.
pub proof fn lemma_observe_stays_within_capacity(trails: Seq<TrailView>, balls: Seq<Ball>)
    requires
        within_capacity(trails),
    ensures
        within_capacity(observe(trails, balls)),
{
    let after = observe(trails, balls);
    assert forall|i: int| 0 <= i < after.len() implies (#[trigger] after[i]).points.len()
        <= TRAIL_SIZE by {
        if i < trails.len() {
            assert(trails[i].points.len() <= TRAIL_SIZE);
        }
    }
}

/// Observing never takes a trail away, and afterwards the newest entry of
/// each particle's trail is the particle's position.
pub proof fn lemma_observe_records_positions(trails: Seq<TrailView>, balls: Seq<Ball>)
    ensures
        observe(trails, balls).len() >= trails.len(),
        observe(trails, balls).len() >= balls.len(),
        forall|i: int|
            0 <= i < balls.len() ==> (#[trigger] observe(trails, balls)[i]).points.len() > 0
                && observe(trails, balls)[i].points.last() == balls[i].pos,
{
}

/// The two values that one line of a series joins: that of a slot and
/// that of the slot after it.
#[derive(Clone, Copy, PartialEq, Eq, Structural, Debug)]
pub struct Span {
    pub from: u32,
    pub to: u32,
}

/// The three energy lines that join one slot to the next.
#[derive(Clone, Copy, PartialEq, Eq, Structural, Debug)]
pub struct EnergySegment {
    pub slot: usize,
    pub kinetic: Span,
    pub potential: Span,
    pub mechanical: Span,
}

/// The frame-time line that joins one slot to the next.
#[derive(Clone, Copy, PartialEq, Eq, Structural, Debug)]
pub struct FrameTimeSegment {
    pub slot: usize,
    pub from: u32,
    pub to: u32,
}

/// The energy overlay: the latest mechanical energy, which is its title and
/// its scale, and the lines from left to right.
pub struct EnergyGraph {
    pub latest: u32,
    pub segments: Vec<EnergySegment>,
}

/// The frame-time overlay: every retained frame time in slot order, from
/// which its title and scale are taken, and the lines from left to right.
pub struct FrameTimeGraph {
    pub frame_times: Vec<u32>,
    pub segments: Vec<FrameTimeSegment>,
}

/// The polyline of one trail and the palette slot to draw it in.
pub struct TrailDrawing {
    pub color: usize,
    pub segments: Vec<TrailSegment>,
}

/// The line of text: the number of particles, the sub-step size, and the two
/// energies of the latest frame, whose sum it shows.
#[derive(Clone, Copy, PartialEq, Eq, Structural, Debug)]
pub struct Info {
    pub balls: usize,
    pub step_size: u32,
    pub kinetic: u32,
    pub potential: u32,
}

/// What there is to draw, overlay by overlay; an overlay that is switched
/// off is absent. They are drawn in the order info, energy, frame time,
/// trails.
pub struct Overlays {
    pub info: Option<Info>,
    pub energy: Option<EnergyGraph>,
    pub frame_time: Option<FrameTimeGraph>,
    pub trails: Option<Vec<TrailDrawing>>,
}

/// The energies of a graph line.
pub open spec fn energy_segment(segment: Segment) -> EnergySegment {
    EnergySegment {
        slot: segment.slot,
        kinetic: Span { from: segment.from.kinetic, to: segment.to.kinetic },
        potential: Span { from: segment.from.potential, to: segment.to.potential },
        mechanical: Span { from: segment.from.mechanical, to: segment.to.mechanical },
    }
}

/// The frame times of a graph line.
pub open spec fn frame_time_segment(segment: Segment) -> FrameTimeSegment {
    FrameTimeSegment {
        slot: segment.slot,
        from: segment.from.frame_time,
        to: segment.to.frame_time,
    }
}

impl EnergyGraph {
    /// Whether this is the energy overlay of the given history.
    pub open spec fn shows(&self, history: HistoryView) -> bool {
        &&& self.latest == history.newest().mechanical
        &&& self.segments@ == history.graph().map_values(
            |segment: Segment| energy_segment(segment),
        )
    }
}

impl FrameTimeGraph {
    /// Whether this is the frame-time overlay of the given history.
    pub open spec fn shows(&self, history: HistoryView) -> bool {
        &&& self.frame_times@ == history.slots.map_values(|sample: Sample| sample.frame_time)
        &&& self.segments@ == history.graph().map_values(
            |segment: Segment| frame_time_segment(segment),
        )
    }
}

impl TrailDrawing {
    /// Whether this is the drawing of the given trail.
    pub open spec fn shows(&self, trail: TrailView) -> bool {
        &&& self.color == trail.color
        &&& self.segments@ == polyline(trail.points)
    }
}

/// Whether the drawings are those of the trails, one for one.
pub open spec fn show_trails(drawings: Seq<TrailDrawing>, trails: Seq<TrailView>) -> bool {
    &&& drawings.len() == trails.len()
    &&& forall|i: int| 0 <= i < trails.len() ==> (#[trigger] drawings[i]).shows(trails[i])
}

impl Info {
    /// Whether this is the line of text of the given database.
    pub open spec fn shows(&self, database: DatabaseView) -> bool {
        &&& self.balls == database.ball_counter
        &&& self.step_size == database.step_size
        &&& self.kinetic == database.history.newest().kinetic
        &&& self.potential == database.history.newest().potential
    }
}

/// The diagnostics of a run: the history of energies and frame times, one
/// trail for each particle seen so far, what the line of text reports, and
/// which overlays are shown.
pub struct Database {
    history: History,
    ball_trails: Vec<Trail>,
    ball_counter: usize,
    step_size: u32,
    visibility: Visibility,
}

/// What a database is to its users.
pub struct DatabaseView {
    pub history: HistoryView,
    pub trails: Seq<TrailView>,
    pub ball_counter: usize,
    pub step_size: u32,
    pub visibility: Visibility,
}

impl View for Database {
    type V = DatabaseView;

    closed spec fn view(&self) -> DatabaseView {
        DatabaseView {
            history: self.history@,
            trails: self.ball_trails@.map_values(|trail: Trail| trail@),
            ball_counter: self.ball_counter,
            step_size: self.step_size,
            visibility: self.visibility,
        }
    }
}

impl DatabaseView {
    /// The history has `GRAPH_SIZE` slots with the cursor at one of them,
    /// and no trail holds more than `TRAIL_SIZE` positions.
    pub open spec fn wf(self) -> bool {
        &&& self.history.slots.len() == GRAPH_SIZE
        &&& self.history.wf()
        &&& within_capacity(self.trails)
    }
}

impl Database {
    /// The database is well formed: its view is.
    pub open spec fn wf(&self) -> bool {
        self@.wf()
    }

    /// A database that has seen nothing: a blank history, no trail, and
    /// every overlay shown.
    pub fn new() -> (database: Database)
        ensures
            database.wf(),
            database@.history.cursor == 0,
            database@.history.slots == Seq::new(GRAPH_SIZE as nat, |i: int| Sample::blank()),
            database@.trails == Seq::<TrailView>::empty(),
            database@.ball_counter == 0,
            database@.step_size == 0,
            database@.visibility == Visibility::everything(),
    {
        let database = Database {
            history: History::new(),
            ball_trails: Vec::new(),
            ball_counter: 0,
            step_size: 0,
            visibility: Visibility { energy: true, frame_time: true, trails: true, info: true },
        };
        assert(database@.trails =~= Seq::<TrailView>::empty());
        database
    }

    /// Takes in one finished frame: the sample goes into the history, every
    /// particle is observed by its trail, and the particle count and the
    /// sub-step size are noted for the line of text.
    pub fn update(&mut self, simulation: &Simulation, sample: Sample)
        requires
            old(self).wf(),
        ensures
            final(self).wf(),
            final(self)@ == (DatabaseView {
                history: old(self)@.history.record(sample),
                trails: observe(old(self)@.trails, simulation.balls@),
                ball_counter: simulation.balls@.len() as usize,
                step_size: simulation.step_size,
                visibility: old(self)@.visibility,
            }),
    {
        self.update_graphs(sample);
        self.update_ball_trails(simulation);
        self.ball_counter = simulation.balls.len();
        self.step_size = simulation.step_size;
    }

    /// Writes the sample under the history's cursor and advances the cursor.
    pub fn update_graphs(&mut self, sample: Sample)
        requires
            old(self).wf(),
        ensures
            final(self).wf(),
            final(self)@ == (DatabaseView {
                history: old(self)@.history.record(sample),
                ..old(self)@
            }),
    {
        self.history.record(sample);
    }

    /// Lets every trail observe its particle, after giving a fresh trail to
    /// every particle that has none.
    pub fn update_ball_trails(&mut self, simulation: &Simulation)
        requires
            old(self).wf(),
        ensures
            final(self).wf(),
            final(self)@ == (DatabaseView {
                trails: observe(old(self)@.trails, simulation.balls@),
                ..old(self)@
            }),
    {
        let count = simulation.balls.len();
        while self.ball_trails.len() < count
            invariant
                count == simulation.balls@.len(),
                self.history == old(self).history,
                self.ball_counter == old(self).ball_counter,
                self.step_size == old(self).step_size,
                self.visibility == old(self).visibility,
                self.ball_trails@.len() >= old(self).ball_trails@.len(),
                self.ball_trails@.len() <= count || self.ball_trails@.len() == old(
                    self,
                ).ball_trails@.len(),
                forall|i: int|
                    0 <= i < old(self).ball_trails@.len() ==> self.ball_trails@[i] == old(
                        self,
                    ).ball_trails@[i],
                forall|i: int|
                    old(self).ball_trails@.len() <= i < self.ball_trails@.len()
                        ==> (#[trigger] self.ball_trails@[i])@ == fresh_trail(i),
            decreases count - self.ball_trails@.len(),
        {
            let color = self.ball_trails.len() % PALETTE_SIZE;
            self.ball_trails.push(Trail::new(color));
        }
        let ghost allocated = self.ball_trails@;
        let mut i: usize = 0;
        while i < count
            invariant
                i <= count,
                count == simulation.balls@.len(),
                count <= self.ball_trails@.len(),
                self.history == old(self).history,
                self.ball_counter == old(self).ball_counter,
                self.step_size == old(self).step_size,
                self.visibility == old(self).visibility,
                self.ball_trails@.len() == allocated.len(),
                forall|k: int|
                    0 <= k < i ==> (#[trigger] self.ball_trails@[k])@ == (TrailView {
                        points: evicting_push(allocated[k]@.points, simulation.balls@[k].pos),
                        color: allocated[k]@.color,
                    }),
                forall|k: int| i <= k < allocated.len() ==> self.ball_trails@[k] == allocated[k],
            decreases count - i,
        {
            let position = simulation.balls[i].pos;
            self.ball_trails[i].push(position);
            i += 1;
        }
        assert(self@.trails =~= observe(old(self)@.trails, simulation.balls@));
        proof {
            lemma_observe_stays_within_capacity(old(self)@.trails, simulation.balls@);
        }
    }

    /// Flips the visibility of each overlay whose key went down. Nothing
    /// that was recorded changes.
    pub fn input(&mut self, pressed: Toggles)
        ensures
            final(self).wf() == old(self).wf(),
            final(self)@ == (DatabaseView {
                visibility: old(self)@.visibility.toggled(pressed),
                ..old(self)@
            }),
    {
        self.visibility = self.visibility.toggle(pressed);
    }

    /// What there is to draw: each overlay that is switched on, and no
    /// other.
    pub fn draw(&self) -> (overlays: Overlays)
        requires
            self.wf(),
        ensures
            overlays.info.is_some() == self@.visibility.info,
            overlays.energy.is_some() == self@.visibility.energy,
            overlays.frame_time.is_some() == self@.visibility.frame_time,
            overlays.trails.is_some() == self@.visibility.trails,
            overlays.info matches Some(info) ==> info.shows(self@),
            overlays.energy matches Some(energy) ==> energy.shows(self@.history),
            overlays.frame_time matches Some(frame_time) ==> frame_time.shows(self@.history),
            overlays.trails matches Some(trails) ==> show_trails(trails@, self@.trails),
    {
        let info = if self.visibility.info {
            Some(self.draw_info())
        } else {
            None
        };
        let energy = if self.visibility.energy {
            Some(self.draw_energy())
        } else {
            None
        };
        let frame_time = if self.visibility.frame_time {
            Some(self.draw_frame_time())
        } else {
            None
        };
        let trails = if self.visibility.trails {
            Some(self.draw_trails())
        } else {
            None
        };
        Overlays { info, energy, frame_time, trails }
    }

    /// The energy overlay: the latest mechanical energy, and the three
    /// energy lines over every pair of neighbouring slots but the pair that
    /// straddles the cursor.
    pub fn draw_energy(&self) -> (energy: EnergyGraph)
        requires
            self.wf(),
        ensures
            energy.shows(self@.history),
    {
        let latest = self.history.latest().mechanical;
        let lines = self.history.segments();
        let mut segments: Vec<EnergySegment> = Vec::new();
        let mut k: usize = 0;
        while k < lines.len()
            invariant
                k <= lines@.len(),
                segments@.len() == k,
                forall|j: int| 0 <= j < k ==> segments@[j] == energy_segment(lines@[j]),
            decreases lines@.len() - k,
        {
            let line = lines[k];
            segments.push(
                EnergySegment {
                    slot: line.slot,
                    kinetic: Span { from: line.from.kinetic, to: line.to.kinetic },
                    potential: Span { from: line.from.potential, to: line.to.potential },
                    mechanical: Span { from: line.from.mechanical, to: line.to.mechanical },
                },
            );
            k += 1;
        }
        assert(segments@ =~= lines@.map_values(|segment: Segment| energy_segment(segment)));
        EnergyGraph { latest, segments }
    }

    /// The frame-time overlay: every retained frame time, and the line over
    /// every pair of neighbouring slots but the pair that straddles the
    /// cursor.
    pub fn draw_frame_time(&self) -> (frame_time: FrameTimeGraph)
        requires
            self.wf(),
        ensures
            frame_time.shows(self@.history),
    {
        let samples = self.history.samples();
        let mut frame_times: Vec<u32> = Vec::new();
        let mut slot: usize = 0;
        while slot < samples.len()
            invariant
                slot <= samples@.len(),
                frame_times@.len() == slot,
                forall|j: int| 0 <= j < slot ==> frame_times@[j] == samples@[j].frame_time,
            decreases samples@.len() - slot,
        {
            frame_times.push(samples[slot].frame_time);
            slot += 1;
        }
        assert(frame_times@ =~= samples@.map_values(|sample: Sample| sample.frame_time));
        let lines = self.history.segments();
        let mut segments: Vec<FrameTimeSegment> = Vec::new();
        let mut k: usize = 0;
        while k < lines.len()
            invariant
                k <= lines@.len(),
                segments@.len() == k,
                forall|j: int| 0 <= j < k ==> segments@[j] == frame_time_segment(lines@[j]),
            decreases lines@.len() - k,
        {
            let line = lines[k];
            segments.push(
                FrameTimeSegment {
                    slot: line.slot,
                    from: line.from.frame_time,
                    to: line.to.frame_time,
                },
            );
            k += 1;
        }
        assert(segments@ =~= lines@.map_values(|segment: Segment| frame_time_segment(segment)));
        FrameTimeGraph { frame_times, segments }
    }

    /// The polyline of every trail, in creation order of the particles.
    pub fn draw_trails(&self) -> (drawings: Vec<TrailDrawing>)
        ensures
            show_trails(drawings@, self@.trails),
    {
        let mut drawings: Vec<TrailDrawing> = Vec::new();
        let mut i: usize = 0;
        while i < self.ball_trails.len()
            invariant
                i <= self.ball_trails@.len(),
                drawings@.len() == i,
                forall|k: int|
                    0 <= k < i ==> (#[trigger] drawings@[k]).shows(self.ball_trails@[k]@),
            decreases self.ball_trails@.len() - i,
        {
            let trail = &self.ball_trails[i];
            drawings.push(TrailDrawing { color: trail.color(), segments: trail.segments() });
            i += 1;
        }
        drawings
    }

    /// The line of text: the number of particles, the sub-step size, and the
    /// kinetic and potential energy of the latest frame.
    pub fn draw_info(&self) -> (info: Info)
        requires
            self.wf(),
        ensures
            info.shows(self@),
    {
        let latest = self.history.latest();
        Info {
            balls: self.ball_counter,
            step_size: self.step_size,
            kinetic: latest.kinetic,
            potential: latest.potential,
        }
    }

    /// The history of energies and frame times.
    pub fn history(&self) -> (history: &History)
        ensures
            history@ == self@.history,
            self.wf() ==> history.wf(),
    {
        &self.history
    }

    /// The trails, in creation order of the particles.
    pub fn trails(&self) -> (trails: &Vec<Trail>)
        ensures
            trails@.map_values(|trail: Trail| trail@) == self@.trails,
    {
        &self.ball_trails
    }

    /// Which overlays are shown.
    pub fn visibility(&self) -> (visibility: Visibility)
        ensures
            visibility == self@.visibility,
    {
        self.visibility
    }
}

} // verus!

use vstd::prelude::*;
use vstd::arithmetic::div_mod::{
    lemma_fundamental_div_mod, lemma_fundamental_div_mod_converse, lemma_mod_add_multiples_vanish,
    lemma_mod_bound, lemma_small_mod,
};

verus! {

/// How many frames a history retains.
pub const GRAPH_SIZE: usize = 300;

/// What is recorded for one frame: the three energies and the frame's
/// duration, each as the bit pattern of a single-precision number.
#[derive(Clone, Copy, PartialEq, Eq, Structural, Debug)]
pub struct Sample {
    pub kinetic: u32,
    pub potential: u32,
    pub mechanical: u32,
    pub frame_time: u32,
}

impl Sample {
    /// The sample that every slot holds before anything is recorded: four
    /// positive zeros.
    pub open spec fn blank() -> Sample {
        Sample { kinetic: 0, potential: 0, mechanical: 0, frame_time: 0 }
    }
}

/// One line of a graph: it joins the samples in `slot` and `slot + 1`.
#[derive(Clone, Copy, PartialEq, Eq, Structural, Debug)]
pub struct Segment {
    pub slot: usize,
    pub from: Sample,
    pub to: Sample,
}

/// Where the write cursor stands after one more sample.
pub open spec fn next_cursor(cursor: int, capacity: int) -> int {
    if cursor + 1 >= capacity {
        0
    } else {
        cursor + 1
    }
}

/// The slot of the most recently written sample.
pub open spec fn newest_slot(cursor: int, capacity: int) -> int {
    if cursor == 0 {
        capacity - 1
    } else {
        cursor - 1
    }
}

/// The place that a slot has in the order of age: zero for the oldest.
pub open spec fn age_rank(slot: int, cursor: int, capacity: int) -> int {
    if slot >= cursor {
        slot - cursor
    } else {
        slot + capacity - cursor
    }
}

/// Whether a line may join `slot` and `slot + 1`: both must exist, and the
/// pair must not straddle the cursor, where the newest sample meets the
/// oldest.
pub open spec fn joinable(slot: int, cursor: int, capacity: int) -> bool {
    0 <= slot < capacity - 1 && slot + 1 != cursor
}

/// The slot at which the `k`-th line of a graph starts.
pub open spec fn segment_slot(k: int, cursor: int) -> int {
    if cursor == 0 || k < cursor - 1 {
        k
    } else {
        k + 1
    }
}

/// The number of lines in a graph.
pub open spec fn segment_count(cursor: int, capacity: int) -> int {
    if capacity <= 1 {
        0
    } else if cursor == 0 {
        capacity - 1
    } else {
        capacity - 2
    }
}

/// What a history is to its users: the samples slot by slot, and the slot
/// that the next sample goes to. All series share that one cursor, so a
/// slot's sample is one frame's.
pub struct HistoryView {
    pub slots: Seq<Sample>,
    pub cursor: int,
}

impl HistoryView {
    /// The cursor points at a slot.
    pub open spec fn wf(self) -> bool {
        0 <= self.cursor < self.slots.len()
    }

    /// The history after one more sample: it is written under the cursor,
    /// and the cursor advances by one slot, back to zero after the last.
    pub open spec fn record(self, sample: Sample) -> HistoryView {
        HistoryView {
            slots: self.slots.update(self.cursor, sample),
            cursor: next_cursor(self.cursor, self.slots.len() as int),
        }
    }

    /// The history after a run of samples was recorded one by one.
    pub open spec fn record_all(self, samples: Seq<Sample>) -> HistoryView
        decreases samples.len(),
    {
        if samples.len() == 0 {
            self
        } else {
            self.record_all(samples.drop_last()).record(samples.last())
        }
    }

    /// The sample that was written last.
    pub open spec fn newest(self) -> Sample {
        self.slots[newest_slot(self.cursor, self.slots.len() as int)]
    }

    /// The samples in order of age, oldest first. The oldest sits under the
    /// cursor, the newest just before it.
    pub open spec fn window(self) -> Seq<Sample> {
        self.slots.subrange(self.cursor, self.slots.len() as int) + self.slots.subrange(
            0,
            self.cursor,
        )
    }

    /// The lines of a graph over the slots, from left to right.
    pub open spec fn graph(self) -> Seq<Segment> {
        Seq::new(
            segment_count(self.cursor, self.slots.len() as int) as nat,
            |k: int|
                Segment {
                    slot: segment_slot(k, self.cursor) as usize,
                    from: self.slots[segment_slot(k, self.cursor)],
                    to: self.slots[segment_slot(k, self.cursor) + 1],
                },
        )
    }
}

/// Advancing a cursor by one slot is adding one modulo the capacity.
pub proof fn lemma_next_cursor(cursor: int, capacity: int)
    requires
        0 <= cursor < capacity,
    ensures
        next_cursor(cursor, capacity) == (cursor + 1) % capacity,
{
    if cursor + 1 < capacity {
        lemma_small_mod((cursor + 1) as nat, capacity as nat);
    } else {
        lemma_fundamental_div_mod_converse(cursor + 1, capacity, 1, 0);
    }
}

/// Recording shifts the order of age by one: the oldest sample is gone, the
/// recorded one is the newest, and the cursor still points at a slot.
pub proof fn lemma_record_shifts_window(history: HistoryView, sample: Sample)
    requires
        history.wf(),
    ensures
        history.record(sample).wf(),
        history.record(sample).slots.len() == history.slots.len(),
        history.record(sample).window() == history.window().drop_first().push(sample),
        history.record(sample).newest() == sample,
{
    let after = history.record(sample).window();
    let shifted = history.window().drop_first().push(sample);
    assert(after.len() == shifted.len());
    assert forall|i: int| 0 <= i < after.len() implies after[i] == shifted[i] by {}
    assert(after =~= shifted);
}

/// The wraparound law. After any run of samples the cursor has moved by
/// their number modulo the capacity, and the history holds, in order of age,
/// exactly the most recent `capacity` of everything it held and was given.
pub proof fn lemma_history_wraparound(history: HistoryView, samples: Seq<Sample>)
    requires
        history.wf(),
    ensures
        history.record_all(samples).wf(),
        history.record_all(samples).slots.len() == history.slots.len(),
        history.record_all(samples).cursor == (history.cursor + samples.len()) % (
        history.slots.len() as int),
        history.record_all(samples).window() == (history.window() + samples).subrange(
            samples.len() as int,
            (samples.len() + history.slots.len()) as int,
        ),
    decreases samples.len(),
{
    let capacity = history.slots.len() as int;
    if samples.len() == 0 {
        lemma_small_mod(history.cursor as nat, capacity as nat);
        assert((history.window() + samples).subrange(0, capacity) =~= history.window());
    } else {
        let earlier = samples.drop_last();
        lemma_history_wraparound(history, earlier);
        let before = history.record_all(earlier);
        lemma_record_shifts_window(before, samples.last());
        let total = history.cursor + earlier.len();
        let wraps = total / capacity;
        lemma_fundamental_div_mod(total, capacity);
        lemma_mod_bound(total, capacity);
        assert(total == wraps * capacity + before.cursor) by (nonlinear_arith)
            requires
                total == capacity * wraps + before.cursor,
        ;
        if before.cursor + 1 < capacity {
            lemma_fundamental_div_mod_converse(total + 1, capacity, wraps, before.cursor + 1);
        } else {
            assert(total + 1 == (wraps + 1) * capacity + 0) by (nonlinear_arith)
                requires
                    total == wraps * capacity + before.cursor,
                    before.cursor + 1 == capacity,
            ;
            lemma_fundamental_div_mod_converse(total + 1, capacity, wraps + 1, 0);
        }
        let seen = history.window() + samples;
        assert(before.window().drop_first().push(samples.last()) =~= seen.subrange(
            samples.len() as int,
            samples.len() + capacity,
        ));
    }
}

/// Once at least `capacity` samples were recorded, nothing older than the
/// most recent `capacity` of them can be retrieved.
pub proof fn lemma_history_keeps_most_recent(history: HistoryView, samples: Seq<Sample>)
    requires
        history.wf(),
        samples.len() >= history.slots.len(),
    ensures
        history.record_all(samples).window() == samples.subrange(
            samples.len() - history.slots.len(),
            samples.len() as int,
        ),
{
    lemma_history_wraparound(history, samples);
    assert((history.window() + samples).subrange(
        samples.len() as int,
        (samples.len() + history.slots.len()) as int,
    ) =~= samples.subrange(samples.len() - history.slots.len(), samples.len() as int));
}

/// Recording `capacity + k` samples into a history whose cursor stood at
/// slot zero leaves the cursor at `k` modulo the capacity, and of the
/// samples only those after the first `k` remain.
pub proof fn lemma_wraparound_from_start(history: HistoryView, samples: Seq<Sample>, k: int)
    requires
        history.wf(),
        history.cursor == 0,
        k >= 0,
        samples.len() == history.slots.len() + k,
    ensures
        history.record_all(samples).cursor == k % (history.slots.len() as int),
        history.record_all(samples).window() == samples.subrange(k, samples.len() as int),
{
    lemma_history_wraparound(history, samples);
    lemma_history_keeps_most_recent(history, samples);
    lemma_mod_add_multiples_vanish(k, history.slots.len() as int);
}

/// A graph holds a line for every joinable slot and for no other, from left
/// to right, and each line carries the samples of the two slots it joins.
pub proof fn lemma_graph_skips_only_the_cursor(history: HistoryView)
    requires
        history.wf(),
        history.slots.len() <= usize::MAX,
    ensures
        forall|k: int|
            0 <= k < history.graph().len() ==> joinable(
                (#[trigger] history.graph()[k]).slot as int,
                history.cursor,
                history.slots.len() as int,
            ) && history.graph()[k].from == history.slots[history.graph()[k].slot as int]
                && history.graph()[k].to == history.slots[history.graph()[k].slot + 1],
        forall|j: int, k: int|
            0 <= j < k < history.graph().len() ==> (#[trigger] history.graph()[j]).slot < (
            #[trigger] history.graph()[k]).slot,
        forall|slot: int|
            joinable(slot, history.cursor, history.slots.len() as int) ==> exists|k: int|
                0 <= k < history.graph().len() && (#[trigger] history.graph()[k]).slot == slot,
{
    let capacity = history.slots.len() as int;
    let lines = history.graph();
    assert forall|slot: int| joinable(slot, history.cursor, capacity) implies exists|k: int|
        0 <= k < lines.len() && (#[trigger] lines[k]).slot == slot by {
        let k = if history.cursor == 0 || slot < history.cursor - 1 {
            slot
        } else {
            slot - 1
        };
        assert(0 <= k < lines.len());
        assert(lines[k].slot == slot);
    }
}

/// Every line of a graph joins two samples that follow each other in time.
pub proof fn lemma_segment_joins_consecutive_samples(history: HistoryView, slot: int)
    requires
        history.wf(),
        joinable(slot, history.cursor, history.slots.len() as int),
    ensures
        age_rank(slot + 1, history.cursor, history.slots.len() as int) == age_rank(
            slot,
            history.cursor,
            history.slots.len() as int,
        ) + 1,
        history.window()[age_rank(slot, history.cursor, history.slots.len() as int)]
            == history.slots[slot],
        history.window()[age_rank(slot, history.cursor, history.slots.len() as int) + 1]
            == history.slots[slot + 1],
{
}

/// The pair of slots that no line joins holds the newest sample and the
/// oldest: the two that are furthest apart in time.
pub proof fn lemma_skipped_pair_is_newest_and_oldest(history: HistoryView)
    requires
        history.wf(),
        history.cursor > 0,
    ensures
        !joinable(history.cursor - 1, history.cursor, history.slots.len() as int),
        history.slots[history.cursor - 1] == history.newest(),
        history.slots[history.cursor] == history.window()[0],
        history.newest() == history.window().last(),
{
}

/// Four series of `GRAPH_SIZE` slots each, written through one shared
/// cursor, so that equal slots of the four always belong to one frame.
pub struct History {
    kinetic_energy: [u32; GRAPH_SIZE],
    potential_energy: [u32; GRAPH_SIZE],
    mechanical_energy: [u32; GRAPH_SIZE],
    frame_time: [u32; GRAPH_SIZE],
    index: usize,
}

impl View for History {
    type V = HistoryView;

    closed spec fn view(&self) -> HistoryView {
        HistoryView {
            slots: Seq::new(
                GRAPH_SIZE as nat,
                |i: int|
                    Sample {
                        kinetic: self.kinetic_energy@[i],
                        potential: self.potential_energy@[i],
                        mechanical: self.mechanical_energy@[i],
                        frame_time: self.frame_time@[i],
                    },
            ),
            cursor: self.index as int,
        }
    }
}

impl History {
    /// There are `GRAPH_SIZE` slots, and the cursor points at one of them.
    pub open spec fn wf(&self) -> bool {
        self@.slots.len() == GRAPH_SIZE && self@.wf()
    }

    /// A history of blank samples with the cursor at slot zero.
    pub fn new() -> (history: History)
        ensures
            history.wf(),
            history@.cursor == 0,
            history@.slots == Seq::new(GRAPH_SIZE as nat, |i: int| Sample::blank()),
    {
        let history = History {
            kinetic_energy: [0; GRAPH_SIZE],
            potential_energy: [0; GRAPH_SIZE],
            mechanical_energy: [0; GRAPH_SIZE],
            frame_time: [0; GRAPH_SIZE],
            index: 0,
        };
        assert(history@.slots =~= Seq::new(GRAPH_SIZE as nat, |i: int| Sample::blank()));
        history
    }

    /// Writes the sample under the cursor and advances the cursor by one
    /// slot, back to zero after the last.
    pub fn record(&mut self, sample: Sample)
        requires
            old(self).wf(),
        ensures
            final(self).wf(),
            final(self)@ == old(self)@.record(sample),
    {
        self.kinetic_energy[self.index] = sample.kinetic;
        self.potential_energy[self.index] = sample.potential;
        self.mechanical_energy[self.index] = sample.mechanical;
        self.frame_time[self.index] = sample.frame_time;
        self.index += 1;
        if self.index >= GRAPH_SIZE {
            self.index = 0;
        }
        assert(self@.slots =~= old(self)@.slots.update(old(self)@.cursor, sample));
    }

    /// The slot that the next sample goes to, which holds the oldest one.
    pub fn index(&self) -> (index: usize)
        requires
            self.wf(),
        ensures
            index == self@.cursor,
            index < GRAPH_SIZE,
    {
        self.index
    }

    /// The slot of the most recently written sample.
    pub fn latest_index(&self) -> (index: usize)
        requires
            self.wf(),
        ensures
            index == newest_slot(self@.cursor, GRAPH_SIZE as int),
            index < GRAPH_SIZE,
    {
        if self.index == 0 {
            GRAPH_SIZE - 1
        } else {
            self.index - 1
        }
    }

    /// The sample in the given slot.
    pub fn sample(&self, slot: usize) -> (sample: Sample)
        requires
            slot < GRAPH_SIZE,
        ensures
            sample == self@.slots[slot as int],
    {
        Sample {
            kinetic: self.kinetic_energy[slot],
            potential: self.potential_energy[slot],
            mechanical: self.mechanical_energy[slot],
            frame_time: self.frame_time[slot],
        }
    }

    /// The most recently written sample.
    pub fn latest(&self) -> (sample: Sample)
        requires
            self.wf(),
        ensures
            sample == self@.newest(),
    {
        let slot = self.latest_index();
        self.sample(slot)
    }

    /// All samples in slot order.
    pub fn samples(&self) -> (samples: Vec<Sample>)
        ensures
            samples@ == self@.slots,
    {
        let mut samples: Vec<Sample> = Vec::new();
        let mut slot: usize = 0;
        while slot < GRAPH_SIZE
            invariant
                slot <= GRAPH_SIZE,
                samples@.len() == slot,
                forall|i: int| 0 <= i < slot ==> samples@[i] == self@.slots[i],
            decreases GRAPH_SIZE - slot,
        {
            samples.push(self.sample(slot));
            slot += 1;
        }
        assert(samples@ =~= self@.slots);
        samples
    }

    /// All samples in order of age, oldest first.
    pub fn chronological(&self) -> (samples: Vec<Sample>)
        requires
            self.wf(),
        ensures
            samples@ == self@.window(),
    {
        let mut samples: Vec<Sample> = Vec::new();
        let mut slot: usize = self.index;
        while slot < GRAPH_SIZE
            invariant
                self.index <= slot <= GRAPH_SIZE,
                samples@.len() == slot - self.index,
                forall|i: int|
                    0 <= i < samples@.len() ==> samples@[i] == self@.slots[self.index + i],
            decreases GRAPH_SIZE - slot,
        {
            samples.push(self.sample(slot));
            slot += 1;
        }
        slot = 0;
        while slot < self.index
            invariant
                self.index < GRAPH_SIZE,
                slot <= self.index,
                samples@.len() == GRAPH_SIZE - self.index + slot,
                forall|i: int|
                    0 <= i < GRAPH_SIZE - self.index ==> samples@[i] == self@.slots[self.index + i],
                forall|i: int|
                    0 <= i < slot ==> samples@[GRAPH_SIZE - self.index + i] == self@.slots[i],
            decreases self.index - slot,
        {
            samples.push(self.sample(slot));
            slot += 1;
        }
        assert(samples@ =~= self@.window());
        samples
    }

    /// The lines of a graph over the slots, from left to right: one for each
    /// pair of neighbouring slots, but for the pair that straddles the
    /// cursor.
    pub fn segments(&self) -> (segments: Vec<Segment>)
        requires
            self.wf(),
        ensures
            segments@ == self@.graph(),
    {
        let mut segments: Vec<Segment> = Vec::new();
        let mut slot: usize = 0;
        while slot < GRAPH_SIZE - 1
            invariant
                self.index < GRAPH_SIZE,
                slot <= GRAPH_SIZE - 1,
                segments@.len() == (if self.index == 0 || slot < self.index {
                    slot as int
                } else {
                    slot - 1
                }),
                forall|k: int| 0 <= k < segments@.len() ==> segments@[k] == self@.graph()[k],
            decreases GRAPH_SIZE - slot,
        {
            if slot + 1 != self.index {
                segments.push(
                    Segment { slot, from: self.sample(slot), to: self.sample(slot + 1) },
                );
            }
            slot += 1;
        }
        assert(segments@ =~= self@.graph());
        segments
    }
}

} // verus!

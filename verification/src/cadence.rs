//! How often a conversation is compacted: the shares of the context window at which checkpoint
//! stages run, and the share at which compaction itself runs.

use vstd::prelude::*;

verus! {

/// Cadence values: ascending checkpoint percentages followed by the compaction trigger.
#[derive(Debug, PartialEq, Eq)]
pub struct CompactionCadence {
    pub checkpoint_percents: Vec<u8>,
    pub trigger_percent: u8,
}

/// What a `CompactionCadence` holds.
#[verifier::ext_equal]
pub struct CadenceModel {
    pub checkpoints: Seq<u8>,
    pub trigger: u8,
}

impl View for CompactionCadence {
    type V = CadenceModel;

    open spec fn view(&self) -> CadenceModel {
        CadenceModel { checkpoints: self.checkpoint_percents@, trigger: self.trigger_percent }
    }
}

/// Stage `index`, counted from one, of `divisions` stages spaced evenly below `trigger`: at least
/// `index` percent where that leaves it below the trigger. Below a trigger of zero there is
/// nothing, so there it is `index` percent.
pub open spec fn spaced(trigger: u8, index: int, divisions: int) -> int {
    let even = trigger * index / (divisions + 1);
    let wanted = if even < index {
        index
    } else {
        even
    };
    if 1 <= trigger <= wanted {
        trigger - 1
    } else {
        wanted
    }
}

impl CadenceModel {
    /// The checkpoint percentages and then the trigger.
    pub open spec fn values(self) -> Seq<u8> {
        self.checkpoints.push(self.trigger)
    }

    /// The cadence with `divisions` stages: unchanged if there are that many, else with stages
    /// spaced evenly below the trigger.
    pub open spec fn with_divisions(self, divisions: usize) -> CadenceModel {
        let count = divisions as u32;
        if divisions == self.checkpoints.len() {
            self
        } else {
            CadenceModel {
                checkpoints: Seq::new(
                    count as nat,
                    |i: int| spaced(self.trigger, i + 1, count as int) as u32 as u8,
                ),
                trigger: self.trigger,
            }
        }
    }

    /// The least value that the handle `index` may take: one above the handle before it.
    pub open spec fn lower(self, index: int) -> int {
        if index == 0 {
            1
        } else if self.values()[index - 1] == u8::MAX {
            u8::MAX as int
        } else {
            self.values()[index - 1] + 1
        }
    }

    /// The greatest value that the handle `index` may take: one below the handle after it, or a
    /// hundred for the trigger.
    pub open spec fn upper(self, index: int) -> int {
        if index + 1 < self.values().len() {
            if self.values()[index + 1] == 0 {
                0
            } else {
                self.values()[index + 1] - 1
            }
        } else {
            100
        }
    }

    /// Whether the neighbours of the handle `index` leave a value for it to take.
    pub open spec fn has_room(self, index: int) -> bool {
        self.lower(index) <= self.upper(index)
    }

    /// The value of the handle `index` after it is moved by `delta` within its bounds.
    pub open spec fn moved(self, index: int, delta: int) -> int {
        let wanted = self.values()[index] + delta;
        if wanted < self.lower(index) {
            self.lower(index)
        } else if wanted > self.upper(index) {
            self.upper(index)
        } else {
            wanted
        }
    }

    /// The cadence after the handle `index` is moved by `delta` within its bounds.
    pub open spec fn nudged(self, index: int, delta: int) -> CadenceModel {
        let value = self.moved(index, delta) as u8;
        if index < self.checkpoints.len() {
            CadenceModel { checkpoints: self.checkpoints.update(index, value), ..self }
        } else {
            CadenceModel { trigger: value, ..self }
        }
    }

    /// Whether the values strictly ascend and lie between one and a hundred.
    pub open spec fn ascending(self) -> bool {
        let values = self.values();
        &&& forall|i: int| 0 <= i < values.len() ==> 1 <= #[trigger] values[i] <= 100
        &&& forall|i: int, j: int|
            0 <= i < j < values.len() ==> #[trigger] values[i] < #[trigger] values[j]
    }
}

impl Clone for CompactionCadence {
    fn clone(&self) -> (copy: CompactionCadence)
        ensures
            copy@ == self@,
    {
        let checkpoint_percents = self.checkpoint_percents.clone();
        assert(checkpoint_percents@ =~= self.checkpoint_percents@);
        CompactionCadence { checkpoint_percents, trigger_percent: self.trigger_percent }
    }
}

impl CompactionCadence {
    /// Rebuilds the stage list for `divisions` stages, spacing new stages evenly below the
    /// trigger while keeping already-configured values when the count is unchanged. The count is
    /// taken as a 32-bit number.
    pub fn with_divisions(&self, divisions: usize) -> (out: CompactionCadence)
        requires
            divisions != self@.checkpoints.len() ==> {
                &&& (divisions as u32) < u32::MAX
                &&& self@.trigger * (divisions as u32) <= u32::MAX
            },
        ensures
            out@ == self@.with_divisions(divisions),
            divisions != self@.checkpoints.len() && self@.trigger >= 1 ==> forall|i: int|
                0 <= i < out@.checkpoints.len() ==> #[trigger] out@.checkpoints[i] < out@.trigger,
    {
        if divisions == self.checkpoint_percents.len() {
            return self.clone();
        }
        let trigger: u32 = self.trigger_percent as u32;
        let count: u32 = divisions as u32;
        let mut checkpoint_percents: Vec<u8> = Vec::new();
        let mut index: u32 = 1;
        let ghost wanted = self@.with_divisions(divisions).checkpoints;
        while index <= count
            invariant
                trigger == self@.trigger,
                count < u32::MAX,
                trigger * count <= u32::MAX,
                1 <= index <= count + 1,
                wanted.len() == count,
                forall|i: int|
                    0 <= i < count ==> #[trigger] wanted[i] == spaced(
                        self@.trigger,
                        i + 1,
                        count as int,
                    ) as u32 as u8,
                checkpoint_percents@ == wanted.take(index - 1),
            decreases count + 1 - index,
        {
            assert(0 <= trigger * index <= trigger * count) by (nonlinear_arith)
                requires
                    index <= count,
            ;
            let even: u32 = trigger * index / (count + 1);
            let wanted_percent: u32 = if even < index {
                index
            } else {
                even
            };
            let percent: u32 = if trigger >= 1 && wanted_percent >= trigger {
                trigger - 1
            } else {
                wanted_percent
            };
            assert(percent == spaced(self@.trigger, index as int, count as int));
            assert(wanted[index - 1] == percent as u8);
            checkpoint_percents.push(#[verifier::truncate] (percent as u8));
            index += 1;
            assert(checkpoint_percents@ =~= wanted.take(index - 1));
        }
        assert(checkpoint_percents@ =~= wanted);
        proof {
            if self@.trigger >= 1 {
                law_new_stages_lie_below_the_trigger(self@, divisions);
            }
        }
        CompactionCadence { checkpoint_percents, trigger_percent: self.trigger_percent }
    }

    /// The checkpoint percentages and then the trigger.
    pub fn values(&self) -> (values: Vec<u8>)
        ensures
            values@ == self@.values(),
    {
        let mut values = self.checkpoint_percents.clone();
        assert(values@ =~= self.checkpoint_percents@);
        values.push(self.trigger_percent);
        values
    }

    /// The bounds between which the handle `index` may move.
    pub fn bounds(&self, index: usize) -> (bounds: (u8, u8))
        requires
            index <= self@.checkpoints.len(),
        ensures
            bounds.0 == self@.lower(index as int),
            bounds.1 == self@.upper(index as int),
    {
        let values = self.values();
        let lower: u8 = if index == 0 {
            1
        } else {
            values[index - 1].saturating_add(1)
        };
        let upper: u8 = if index < values.len() - 1 {
            values[index + 1].saturating_sub(1)
        } else {
            100
        };
        (lower, upper)
    }

    /// Moves the handle `index` by `delta`, no further than its bounds.
    pub fn nudge(&mut self, index: usize, delta: i16)
        requires
            index <= old(self)@.checkpoints.len(),
            old(self)@.has_room(index as int),
            i16::MIN <= old(self)@.values()[index as int] + delta <= i16::MAX,
        ensures
            final(self)@ == old(self)@.nudged(index as int, delta as int),
    {
        let (lower, upper) = self.bounds(index);
        let mut values = self.values();
        let wanted: i16 = values[index] as i16 + delta;
        let next: u8 = if wanted < lower as i16 {
            lower
        } else if wanted > upper as i16 {
            upper
        } else {
            wanted as u8
        };
        assert(next == self@.moved(index as int, delta as int));
        values[index] = next;
        let ghost before = self@;
        if let Some(trigger) = values.pop() {
            self.trigger_percent = trigger;
        }
        self.checkpoint_percents = values;
        assert(self@ =~= before.nudged(index as int, delta as int));
    }
}

proof fn lemma_spaced(trigger: u8, i: int, divisions: int)
    requires
        1 <= i <= divisions < trigger,
    ensures
        spaced(trigger, i, divisions) == trigger * i / (divisions + 1),
        i <= spaced(trigger, i, divisions) < trigger,
{
    let t = trigger as int;
    let d = divisions + 1;
    assert(t * i / d >= i && t * i / d < t) by (nonlinear_arith)
        requires
            t >= d,
            1 <= i < d,
    ;
}

proof fn lemma_spaced_ascends(trigger: u8, i: int, j: int, divisions: int)
    requires
        1 <= i < j <= divisions < trigger,
    ensures
        spaced(trigger, i, divisions) < spaced(trigger, j, divisions),
{
    let t = trigger as int;
    let d = divisions + 1;
    lemma_spaced(trigger, i, divisions);
    lemma_spaced(trigger, j, divisions);
    assert(t * j >= t * i + d) by (nonlinear_arith)
        requires
            t >= d > 0,
            1 <= i < j,
    ;
    assert(t * j / d >= t * i / d + 1) by (nonlinear_arith)
        requires
            d > 0,
            t * j >= t * i + d,
    ;
}

/// A new number of stages below the trigger is spaced so that the values strictly ascend; values
/// that are kept ascend if they did before.
pub proof fn law_spaced_stages_ascend(cadence: CadenceModel, divisions: usize)
    requires
        divisions == cadence.checkpoints.len() ==> cadence.ascending(),
        divisions != cadence.checkpoints.len() ==> divisions < cadence.trigger <= 100,
    ensures
        cadence.with_divisions(divisions).ascending(),
{
    if divisions != cadence.checkpoints.len() {
        lemma_spaced_stages_ascend(cadence, divisions);
    }
}

proof fn lemma_spaced_stages_ascend(cadence: CadenceModel, divisions: usize)
    requires
        divisions != cadence.checkpoints.len(),
        divisions < cadence.trigger <= 100,
    ensures
        cadence.with_divisions(divisions).ascending(),
{
    let out = cadence.with_divisions(divisions);
    let values = out.values();
    let n = divisions as int;
    assert(divisions as u32 == divisions);
    assert forall|i: int| 0 <= i < n implies #[trigger] values[i] == spaced(
        cadence.trigger,
        i + 1,
        n,
    ) && i + 1 <= values[i] < cadence.trigger by {
        lemma_spaced(cadence.trigger, i + 1, n);
    }
    assert(values[n] == cadence.trigger);
    assert forall|i: int, j: int| 0 <= i < j < values.len() implies #[trigger] values[i]
        < #[trigger] values[j] by {
        if j < n {
            lemma_spaced_ascends(cadence.trigger, i + 1, j + 1, n);
        }
    }
}

/// However many stages there are to be, new ones lie below the trigger.
pub proof fn law_new_stages_lie_below_the_trigger(cadence: CadenceModel, divisions: usize)
    requires
        divisions != cadence.checkpoints.len(),
        cadence.trigger >= 1,
    ensures
        ({
            let out = cadence.with_divisions(divisions);
            forall|i: int|
                0 <= i < out.checkpoints.len() ==> #[trigger] out.checkpoints[i] < out.trigger
        }),
{
    let out = cadence.with_divisions(divisions);
    let count = divisions as u32 as int;
    assert forall|i: int| 0 <= i < out.checkpoints.len() implies #[trigger] out.checkpoints[i]
        < out.trigger by {
        let stage = spaced(cadence.trigger, i + 1, count);
        assert(0 <= stage < cadence.trigger);
        assert(out.checkpoints[i] == stage as u32 as u8);
    }
}

/// A new number of stages leaves the trigger alone and gives exactly that many stages; the same
/// number keeps the configured values.
pub proof fn law_divisions_set_the_stage_count(cadence: CadenceModel, divisions: usize)
    requires
        divisions <= u32::MAX,
    ensures
        cadence.with_divisions(divisions).checkpoints.len() == divisions,
        cadence.with_divisions(divisions).trigger == cadence.trigger,
        divisions == cadence.checkpoints.len() ==> cadence.with_divisions(divisions) == cadence,
{
}

/// Where the values ascend, every handle has room, and moving one by any amount keeps them
/// ascending between one and a hundred.
pub proof fn law_moved_handles_keep_ascending(cadence: CadenceModel, index: int, delta: int)
    requires
        cadence.ascending(),
        0 <= index <= cadence.checkpoints.len(),
    ensures
        cadence.has_room(index),
        cadence.nudged(index, delta).ascending(),
        cadence.nudged(index, delta).checkpoints.len() == cadence.checkpoints.len(),
{
    let values = cadence.values();
    let out = cadence.nudged(index, delta).values();
    assert(1 <= values[index] <= 100);
    if index > 0 {
        assert(values[index - 1] < values[index]);
    }
    if index + 1 < values.len() {
        assert(values[index] < values[index + 1] <= 100);
    }
    let value = cadence.moved(index, delta);
    assert(1 <= value <= 100);
    assert(out =~= values.update(index, value as u8));
    assert forall|i: int, j: int| 0 <= i < j < out.len() implies #[trigger] out[i]
        < #[trigger] out[j] by {
        assert(values[i] < values[j]);
        if i == index {
            assert(values[index + 1] <= values[j]);
        }
        if j == index {
            assert(values[i] <= values[index - 1]);
        }
    }
}

/// Moving a handle leaves the other handles where they are.
pub proof fn law_moving_a_handle_moves_no_other(
    cadence: CadenceModel,
    index: int,
    delta: int,
    other: int,
)
    requires
        0 <= index <= cadence.checkpoints.len(),
        0 <= other <= cadence.checkpoints.len(),
        other != index,
    ensures
        cadence.nudged(index, delta).values()[other] == cadence.values()[other],
{
}

/// A handle that has room stays strictly between its neighbours and the trigger at most a
/// hundred, however the other values lie.
pub proof fn law_a_moved_handle_stays_between_its_neighbours(
    cadence: CadenceModel,
    index: int,
    delta: int,
)
    requires
        0 <= index <= cadence.checkpoints.len(),
        cadence.has_room(index),
    ensures
        ({
            let out = cadence.nudged(index, delta).values();
            &&& 1 <= out[index]
            &&& index == cadence.checkpoints.len() ==> out[index] <= 100
            &&& index > 0 ==> out[index - 1] < out[index]
            &&& index < cadence.checkpoints.len() ==> out[index] < out[index + 1]
        }),
{
}

} // verus!

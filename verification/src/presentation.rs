//! Per-output presentation: each output has its own frame clock, schedules a
//! frame only when it has damage and nothing in flight, and retires exactly
//! the frame it submitted.

use vstd::prelude::*;

use crate::frame::{DeterministicFrameClock, FrameClock, FrameClockTick};
use crate::num::{saturating_add_u64, saturating_mul_u64};
use crate::output::DrmKmsOutputRegistry;
use crate::protocol::OutputId;

verus! {

/// The presentation state of one output.
#[derive(Clone, Copy, Debug, PartialEq, Eq, Structural)]
pub struct OutputPresentationState {
    pub output: OutputId,
    pub refresh_millihz: u32,
    pub damage_pending: bool,
    pub in_flight_frame: Option<u64>,
    pub last_retired_frame: Option<u64>,
}

/// What scheduling a frame on an output gave.
#[derive(Clone, Copy, Debug, PartialEq, Eq, Structural)]
pub enum OutputPresentationSchedule {
    Scheduled(FrameClockTick),
    WaitingForDamage,
    WaitingForRetirement { frame_serial: u64 },
    UnknownOutput,
}

/// What retiring a frame on an output gave.
#[derive(Clone, Copy, Debug, PartialEq, Eq, Structural)]
pub enum OutputPresentationRetire {
    Retired { frame_serial: u64 },
    NoSubmission,
    UnexpectedFrame { expected: u64, actual: u64 },
    UnknownOutput,
}

/// The state and next clock serial of one output after a schedule request,
/// with the request's result. The clock ticks only when a frame is scheduled.
pub open spec fn schedule_step(state: OutputPresentationState, serial: u64, interval: u64) -> (
    OutputPresentationState,
    u64,
    OutputPresentationSchedule,
) {
    match state.in_flight_frame {
        Some(frame_serial) => (
            state,
            serial,
            OutputPresentationSchedule::WaitingForRetirement { frame_serial },
        ),
        None => if !state.damage_pending {
            (state, serial, OutputPresentationSchedule::WaitingForDamage)
        } else {
            (
                OutputPresentationState {
                    damage_pending: false,
                    in_flight_frame: Some(serial),
                    ..state
                },
                saturating_add_u64(serial, 1),
                OutputPresentationSchedule::Scheduled(
                    FrameClockTick {
                        output: state.output,
                        frame_serial: serial,
                        target_msec: saturating_mul_u64(serial, interval),
                    },
                ),
            )
        },
    }
}

/// The state of one output after a retire request, with the request's result.
pub open spec fn retire_step(state: OutputPresentationState, frame_serial: u64) -> (
    OutputPresentationState,
    OutputPresentationRetire,
) {
    match state.in_flight_frame {
        None => (state, OutputPresentationRetire::NoSubmission),
        Some(expected) => if expected != frame_serial {
            (state, OutputPresentationRetire::UnexpectedFrame { expected, actual: frame_serial })
        } else {
            (
                OutputPresentationState {
                    in_flight_frame: None,
                    last_retired_frame: Some(frame_serial),
                    ..state
                },
                OutputPresentationRetire::Retired { frame_serial },
            )
        },
    }
}

struct PresentationEntry {
    state: OutputPresentationState,
    clock: DeterministicFrameClock,
}

/// The presentation state of every output, in output order.
pub struct OutputPresentationRegistry {
    entries: Vec<PresentationEntry>,
}

impl OutputPresentationRegistry {
    pub closed spec fn states(self) -> Seq<OutputPresentationState> {
        self.entries@.map_values(|e: PresentationEntry| e.state)
    }

    /// The serial each output's clock hands out next.
    pub closed spec fn serials(self) -> Seq<u64> {
        self.entries@.map_values(|e: PresentationEntry| e.clock.serial())
    }

    /// The interval of each output's clock.
    pub closed spec fn intervals(self) -> Seq<u64> {
        self.entries@.map_values(|e: PresentationEntry| e.clock.interval())
    }

    /// One entry per output, in strictly increasing output order.
    pub open spec fn wf(self) -> bool {
        &&& self.serials().len() == self.states().len()
        &&& self.intervals().len() == self.states().len()
        &&& forall|i: int, j: int|
            0 <= i < j < self.states().len() ==> (#[trigger] self.states()[i]).output.raw < (
            #[trigger] self.states()[j]).output.raw
    }

    /// An idle state for every registered output, each with its own clock
    /// starting at serial 1 with a 16 ms interval.
    pub fn from_outputs(outputs: &DrmKmsOutputRegistry) -> (registry: OutputPresentationRegistry)
        requires
            outputs.wf(),
        ensures
            registry.wf(),
            registry.states().len() == outputs.descriptors().len(),
            forall|i: int|
                0 <= i < registry.states().len() ==> #[trigger] registry.states()[i] == (
                OutputPresentationState {
                    output: outputs.descriptors()[i].output,
                    refresh_millihz: outputs.descriptors()[i].mode.refresh_millihz,
                    damage_pending: false,
                    in_flight_frame: None,
                    last_retired_frame: None,
                }),
            forall|i: int| 0 <= i < registry.serials().len() ==> #[trigger] registry.serials()[i] == 1,
            forall|i: int| 0 <= i < registry.intervals().len() ==> #[trigger] registry.intervals()[i] == 16,
    {
        let descriptors = outputs.outputs();
        let mut entries: Vec<PresentationEntry> = Vec::new();
        let mut i: usize = 0;
        while i < descriptors.len()
            invariant
                i <= descriptors@.len(),
                descriptors@ == outputs.descriptors(),
                crate::output::outputs_sorted(descriptors@),
                entries@.len() == i,
                forall|k: int|
                    0 <= k < i ==> (#[trigger] entries@[k]).state == (OutputPresentationState {
                        output: descriptors@[k].output,
                        refresh_millihz: descriptors@[k].mode.refresh_millihz,
                        damage_pending: false,
                        in_flight_frame: None,
                        last_retired_frame: None,
                    }) && entries@[k].clock.serial() == 1 && entries@[k].clock.interval() == 16,
            decreases descriptors@.len() - i,
        {
            let d = descriptors[i];
            entries.push(
                PresentationEntry {
                    state: OutputPresentationState {
                        output: d.output,
                        refresh_millihz: d.mode.refresh_millihz,
                        damage_pending: false,
                        in_flight_frame: None,
                        last_retired_frame: None,
                    },
                    clock: DeterministicFrameClock::default(),
                },
            );
            i = i + 1;
        }
        let registry = OutputPresentationRegistry { entries };
        assert forall|a: int, b: int| 0 <= a < b < registry.states().len() implies (
        #[trigger] registry.states()[a]).output.raw < (#[trigger] registry.states()[b]).output.raw by {
            assert(descriptors@[a].output.raw < descriptors@[b].output.raw);
        }
        registry
    }

    /// Every output's presentation state, in output order.
    pub fn outputs(&self) -> (states: Vec<OutputPresentationState>)
        ensures
            states@ == self.states(),
    {
        let mut states: Vec<OutputPresentationState> = Vec::new();
        let mut i: usize = 0;
        while i < self.entries.len()
            invariant
                i <= self.entries@.len(),
                states@ == self.states().subrange(0, i as int),
            decreases self.entries@.len() - i,
        {
            states.push(self.entries[i].state);
            i = i + 1;
        }
        assert(states@ =~= self.states());
        states
    }

    fn find(&self, output: OutputId) -> (index: Option<usize>)
        ensures
            match index {
                Some(i) => i < self.states().len() && self.states()[i as int].output == output,
                None => forall|i: int| 0 <= i < self.states().len() ==> (#[trigger] self.states()[i]).output != output,
            },
    {
        let mut i: usize = 0;
        while i < self.entries.len()
            invariant
                i <= self.entries@.len(),
                forall|j: int| 0 <= j < i ==> (#[trigger] self.states()[j]).output != output,
            decreases self.entries@.len() - i,
        {
            if self.entries[i].state.output.raw == output.raw {
                return Some(i);
            }
            i = i + 1;
        }
        None
    }

    /// The presentation state of `output`, if it is registered.
    pub fn get(&self, output: OutputId) -> (found: Option<OutputPresentationState>)
        ensures
            match found {
                Some(state) => state.output == output && self.states().contains(state),
                None => forall|i: int| 0 <= i < self.states().len() ==> (#[trigger] self.states()[i]).output != output,
            },
    {
        match self.find(output) {
            Some(i) => {
                assert(self.states().contains(self.states()[i as int]));
                Some(self.entries[i].state)
            },
            None => None,
        }
    }

    /// Records damage on `output`; false when the output is unknown.
    pub fn mark_damage(&mut self, output: OutputId) -> (known: bool)
        requires
            old(self).wf(),
        ensures
            final(self).wf(),
            final(self).serials() == old(self).serials(),
            final(self).intervals() == old(self).intervals(),
            known == exists|i: int| 0 <= i < old(self).states().len() && (#[trigger] old(self).states()[i]).output == output,
            forall|i: int|
                0 <= i < old(self).states().len() ==> #[trigger] final(self).states()[i] == if old(
                    self,
                ).states()[i].output == output {
                    OutputPresentationState { damage_pending: true, ..old(self).states()[i] }
                } else {
                    old(self).states()[i]
                },
            final(self).states().len() == old(self).states().len(),
    {
        match self.find(output) {
            Some(i) => {
                let entry = &self.entries[i];
                let updated = PresentationEntry {
                    state: OutputPresentationState { damage_pending: true, ..entry.state },
                    clock: entry.clock,
                };
                self.replace_entry(i, updated);
                proof {
                    assert forall|k: int| 0 <= k < self.states().len() && k != i implies #[trigger] self.states()[k].output != output by {
                        assert(old(self).states()[k].output.raw != old(self).states()[i as int].output.raw);
                    }
                }
                true
            },
            None => false,
        }
    }

    fn replace_entry(&mut self, i: usize, entry: PresentationEntry)
        requires
            i < old(self).entries@.len(),
            entry.state.output == old(self).entries@[i as int].state.output,
            old(self).wf(),
        ensures
            final(self).entries@ == old(self).entries@.update(i as int, entry),
            final(self).states() == old(self).states().update(i as int, entry.state),
            final(self).serials() == old(self).serials().update(i as int, entry.clock.serial()),
            final(self).intervals() == old(self).intervals().update(i as int, entry.clock.interval()),
            final(self).wf(),
    {
        self.entries.set(i, entry);
        assert(self.states() =~= old(self).states().update(i as int, entry.state));
        assert(self.serials() =~= old(self).serials().update(i as int, entry.clock.serial()));
        assert(self.intervals() =~= old(self).intervals().update(i as int, entry.clock.interval()));
        assert forall|a: int, b: int| 0 <= a < b < self.states().len() implies (
        #[trigger] self.states()[a]).output.raw < (#[trigger] self.states()[b]).output.raw by {
            assert(old(self).states()[a].output.raw < old(self).states()[b].output.raw);
        }
    }

    /// Schedules the next frame of `output` when it has damage and no frame
    /// in flight; the output's clock ticks only then.
    pub fn schedule(&mut self, output: OutputId) -> (result: OutputPresentationSchedule)
        requires
            old(self).wf(),
        ensures
            final(self).wf(),
            final(self).states().len() == old(self).states().len(),
            final(self).intervals() == old(self).intervals(),
            (forall|i: int| 0 <= i < old(self).states().len() ==> (#[trigger] old(self).states()[i]).output != output) ==> {
                &&& result == OutputPresentationSchedule::UnknownOutput
                &&& final(self).states() == old(self).states()
                &&& final(self).serials() == old(self).serials()
            },
            forall|i: int|
                0 <= i < old(self).states().len() && (#[trigger] old(self).states()[i]).output == output ==> {
                    let (state, serial, r) = schedule_step(old(self).states()[i], old(self).serials()[i], old(self).intervals()[i]);
                    &&& result == r
                    &&& final(self).states() == old(self).states().update(i, state)
                    &&& final(self).serials() == old(self).serials().update(i, serial)
                },
    {
        let i = match self.find(output) {
            Some(i) => i,
            None => return OutputPresentationSchedule::UnknownOutput,
        };
        proof {
            assert forall|k: int| 0 <= k < self.states().len() && k != i implies #[trigger] self.states()[k].output != output by {
                assert(self.states()[k].output.raw != self.states()[i as int].output.raw);
            }
            assert(self.states().update(i as int, self.states()[i as int]) =~= self.states());
            assert(self.serials().update(i as int, self.serials()[i as int]) =~= self.serials());
        }
        let state = self.entries[i].state;
        let mut clock = self.entries[i].clock;
        match state.in_flight_frame {
            Some(frame_serial) => {
                return OutputPresentationSchedule::WaitingForRetirement { frame_serial };
            },
            None => {},
        }
        if !state.damage_pending {
            return OutputPresentationSchedule::WaitingForDamage;
        }
        let tick = clock.next_frame(output);
        let updated = PresentationEntry {
            state: OutputPresentationState {
                damage_pending: false,
                in_flight_frame: Some(tick.frame_serial),
                ..state
            },
            clock,
        };
        self.replace_entry(i, updated);
        OutputPresentationSchedule::Scheduled(tick)
    }

    /// Retires the frame in flight on `output` if `frame_serial` is that frame.
    pub fn retire(&mut self, output: OutputId, frame_serial: u64) -> (result: OutputPresentationRetire)
        requires
            old(self).wf(),
        ensures
            final(self).wf(),
            final(self).states().len() == old(self).states().len(),
            final(self).serials() == old(self).serials(),
            final(self).intervals() == old(self).intervals(),
            (forall|i: int| 0 <= i < old(self).states().len() ==> (#[trigger] old(self).states()[i]).output != output) ==> {
                &&& result == OutputPresentationRetire::UnknownOutput
                &&& final(self).states() == old(self).states()
            },
            forall|i: int|
                0 <= i < old(self).states().len() && (#[trigger] old(self).states()[i]).output == output ==> {
                    let (state, r) = retire_step(old(self).states()[i], frame_serial);
                    &&& result == r
                    &&& final(self).states() == old(self).states().update(i, state)
                },
    {
        let i = match self.find(output) {
            Some(i) => i,
            None => return OutputPresentationRetire::UnknownOutput,
        };
        proof {
            assert forall|k: int| 0 <= k < self.states().len() && k != i implies #[trigger] self.states()[k].output != output by {
                assert(self.states()[k].output.raw != self.states()[i as int].output.raw);
            }
            assert(self.states().update(i as int, self.states()[i as int]) =~= self.states());
            assert(self.serials().update(i as int, self.serials()[i as int]) =~= self.serials());
        }
        let state = self.entries[i].state;
        let clock = self.entries[i].clock;
        let expected = match state.in_flight_frame {
            Some(expected) => expected,
            None => return OutputPresentationRetire::NoSubmission,
        };
        if expected != frame_serial {
            return OutputPresentationRetire::UnexpectedFrame { expected, actual: frame_serial };
        }
        let updated = PresentationEntry {
            state: OutputPresentationState {
                in_flight_frame: None,
                last_retired_frame: Some(frame_serial),
                ..state
            },
            clock,
        };
        self.replace_entry(i, updated);
        OutputPresentationRetire::Retired { frame_serial }
    }
}

} // verus!

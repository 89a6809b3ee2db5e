//! The bookkeeping of an input proof run against a live client: which
//! routed inputs are still waiting to be seen on screen, how many reached a
//! presented frame, the slowest of them, and the verdict at the end.
//! Times are nanoseconds on one monotonic clock.

use vstd::prelude::*;

use crate::args::{increasing, insert_increasing};
use crate::input::InputEventKind;

verus! {

broadcast use vstd::seq_lib::group_seq_properties;

/// `a + n`, or `usize::MAX` when that does not fit.
pub open spec fn saturating_add_usize(a: usize, n: nat) -> usize {
    if a + n > usize::MAX {
        usize::MAX
    } else {
        (a + n) as usize
    }
}

/// How long ago `started` was at `now`; zero for a start in the future.
pub open spec fn elapsed(now: u64, started: u64) -> u64 {
    if now >= started {
        (now - started) as u64
    } else {
        0
    }
}

/// The largest of `m` and the time elapsed since each of `starts`.
pub open spec fn max_elapsed(now: u64, starts: Seq<u64>, m: u64) -> u64
    decreases starts.len(),
{
    if starts.len() == 0 {
        m
    } else {
        let before = max_elapsed(now, starts.drop_last(), m);
        let e = elapsed(now, starts.last());
        if e > before {
            e
        } else {
            before
        }
    }
}

/// The tracker as plain values.
pub struct InputProofView {
    pub pending_pixel_input: Seq<(u64, Option<u64>)>,
    pub pending_presented_input: Seq<(u64, u32)>,
    pub pending_presented_pointer: Seq<u64>,
    pub observed_keycodes: Set<u32>,
    pub presented_keycodes: Set<u32>,
    pub routed_input: usize,
    pub routed_keys: usize,
    pub routed_pointer: usize,
    pub input_pixel_changes: usize,
    pub input_presentations: usize,
    pub pointer_presentations: usize,
    pub max_latency_nanos: u64,
}

/// The effect of one routed input at `now`, while the last presented frame
/// had checksum `last_checksum`: a pressed key waits both for a frame whose
/// pixels differ and for a presented frame; pointer input waits for a
/// presented frame.
pub open spec fn routed_step(v: InputProofView, kind: InputEventKind, now: u64, last_checksum: Option<u64>) -> InputProofView {
    let counted = InputProofView { routed_input: saturating_add_usize(v.routed_input, 1), ..v };
    match kind {
        InputEventKind::Key { keycode, pressed } => {
            let keyed = InputProofView { routed_keys: saturating_add_usize(v.routed_keys, 1), ..counted };
            if pressed {
                InputProofView {
                    observed_keycodes: v.observed_keycodes.insert(keycode),
                    pending_pixel_input: v.pending_pixel_input.push((now, last_checksum)),
                    pending_presented_input: v.pending_presented_input.push((now, keycode)),
                    ..keyed
                }
            } else {
                keyed
            }
        },
        _ => InputProofView {
            routed_pointer: saturating_add_usize(v.routed_pointer, 1),
            pending_presented_pointer: v.pending_presented_pointer.push(now),
            ..counted
        },
    }
}

/// Whether a presented frame with `checksum` shows the waiting key input
/// changed pixels: the oldest waiting input saw no frame before, or a
/// frame with another checksum.
pub open spec fn pixels_changed(pending: Seq<(u64, Option<u64>)>, checksum: Option<u64>) -> bool {
    match checksum {
        Some(c) => pending.len() > 0 && match pending[0].1 {
            Some(baseline) => baseline != c,
            None => true,
        },
        None => false,
    }
}

/// The effect of a presented frame with `checksum` at `now`: every input
/// waiting for a presented frame counts as presented, and, when the
/// frame's pixels changed, every key input waiting for a pixel change
/// counts too. The slowest of them raises the maximum latency.
pub open spec fn presented_step(v: InputProofView, checksum: Option<u64>, now: u64) -> InputProofView {
    let keys = v.pending_presented_input;
    let pointers = v.pending_presented_pointer;
    let m1 = max_elapsed(now, keys.map_values(|e: (u64, u32)| e.0), v.max_latency_nanos);
    let m2 = max_elapsed(now, pointers, m1);
    let changed = pixels_changed(v.pending_pixel_input, checksum);
    InputProofView {
        pending_presented_input: Seq::empty(),
        pending_presented_pointer: Seq::empty(),
        presented_keycodes: v.presented_keycodes.union(keys.map_values(|e: (u64, u32)| e.1).to_set()),
        input_presentations: saturating_add_usize(v.input_presentations, keys.len()),
        pointer_presentations: saturating_add_usize(v.pointer_presentations, pointers.len()),
        pending_pixel_input: if changed {
            Seq::empty()
        } else {
            v.pending_pixel_input
        },
        input_pixel_changes: if changed {
            saturating_add_usize(v.input_pixel_changes, v.pending_pixel_input.len())
        } else {
            v.input_pixel_changes
        },
        max_latency_nanos: if changed {
            max_elapsed(now, v.pending_pixel_input.map_values(|e: (u64, Option<u64>)| e.0), m2)
        } else {
            m2
        },
        ..v
    }
}

/// What an input proof run asked to see.
#[derive(Clone, Debug, PartialEq, Eq)]
pub struct InputProofExpectations {
    pub expect_input_pixel_change: bool,
    pub expect_input_presentation: bool,
    pub expect_pointer_input: bool,
    /// Strictly increasing.
    pub expected_keycodes: Vec<u32>,
    pub max_input_latency_msec: u64,
}

/// Why an input proof run failed.
#[derive(Clone, Copy, Debug, PartialEq, Eq, Structural)]
pub enum InputProofError {
    NoPresentedPixelChange,
    NoPresentedClientFrame,
    KeycodesNotPresented { matched: usize, total: usize },
    NoRoutedPointerInput,
    PointerNotPresented,
    LatencyExceeded { observed_msec: u64, limit_msec: u64 },
}

/// The keycodes of `expected` that occur in `found`.
pub open spec fn matched_keycodes(expected: Seq<u32>, found: Set<u32>) -> Seq<u32> {
    expected.filter(|k: u32| found.contains(k))
}

/// The verdict, checks taken in order: pixel change, presented frame,
/// every expected keycode presented, pointer input routed and presented,
/// and, for key proofs, the slowest presentation within the limit.
pub open spec fn spec_verdict(e: InputProofExpectations, v: InputProofView) -> Result<(), InputProofError> {
    let matched = matched_keycodes(e.expected_keycodes@, v.presented_keycodes).len();
    if e.expect_input_pixel_change && (v.routed_input == 0 || v.input_pixel_changes == 0) {
        Err(InputProofError::NoPresentedPixelChange)
    } else if e.expect_input_presentation && (v.routed_input == 0 || v.input_presentations == 0) {
        Err(InputProofError::NoPresentedClientFrame)
    } else if matched != e.expected_keycodes@.len() {
        Err(InputProofError::KeycodesNotPresented { matched: matched as usize, total: e.expected_keycodes@.len() as usize })
    } else if e.expect_pointer_input && v.routed_pointer == 0 {
        Err(InputProofError::NoRoutedPointerInput)
    } else if e.expect_pointer_input && v.pointer_presentations == 0 {
        Err(InputProofError::PointerNotPresented)
    } else if (e.expect_input_pixel_change || e.expect_input_presentation) && v.max_latency_nanos
        > e.max_input_latency_msec * 1_000_000 {
        Err(
            InputProofError::LatencyExceeded {
                observed_msec: (v.max_latency_nanos / 1_000_000) as u64,
                limit_msec: e.max_input_latency_msec,
            },
        )
    } else {
        Ok(())
    }
}

/// The input a proof run has routed and seen presented.
pub struct InputProofTracker {
    pending_pixel_input: Vec<(u64, Option<u64>)>,
    pending_presented_input: Vec<(u64, u32)>,
    pending_presented_pointer: Vec<u64>,
    observed_keycodes: Vec<u32>,
    presented_keycodes: Vec<u32>,
    routed_input: usize,
    routed_keys: usize,
    routed_pointer: usize,
    input_pixel_changes: usize,
    input_presentations: usize,
    pointer_presentations: usize,
    max_latency_nanos: u64,
}

impl View for InputProofTracker {
    type V = InputProofView;

    closed spec fn view(&self) -> InputProofView {
        InputProofView {
            pending_pixel_input: self.pending_pixel_input@,
            pending_presented_input: self.pending_presented_input@,
            pending_presented_pointer: self.pending_presented_pointer@,
            observed_keycodes: self.observed_keycodes@.to_set(),
            presented_keycodes: self.presented_keycodes@.to_set(),
            routed_input: self.routed_input,
            routed_keys: self.routed_keys,
            routed_pointer: self.routed_pointer,
            input_pixel_changes: self.input_pixel_changes,
            input_presentations: self.input_presentations,
            pointer_presentations: self.pointer_presentations,
            max_latency_nanos: self.max_latency_nanos,
        }
    }
}

fn add_one_saturating(a: usize) -> (r: usize)
    ensures
        r == saturating_add_usize(a, 1),
{
    if a == usize::MAX {
        a
    } else {
        a + 1
    }
}

fn elapsed_nanos(now: u64, started: u64) -> (e: u64)
    ensures
        e == elapsed(now, started),
{
    if now >= started {
        now - started
    } else {
        0
    }
}

proof fn lemma_saturating_add_step(a: usize, n: nat)
    ensures
        saturating_add_usize(saturating_add_usize(a, n), 1) == saturating_add_usize(a, n + 1),
{
}

impl InputProofTracker {
    /// The keycode sets are kept strictly increasing.
    pub closed spec fn wf(self) -> bool {
        increasing(self.observed_keycodes@) && increasing(self.presented_keycodes@)
    }

    pub fn new() -> (tracker: InputProofTracker)
        ensures
            tracker.wf(),
            tracker@ == (InputProofView {
                pending_pixel_input: Seq::empty(),
                pending_presented_input: Seq::empty(),
                pending_presented_pointer: Seq::empty(),
                observed_keycodes: Set::empty(),
                presented_keycodes: Set::empty(),
                routed_input: 0,
                routed_keys: 0,
                routed_pointer: 0,
                input_pixel_changes: 0,
                input_presentations: 0,
                pointer_presentations: 0,
                max_latency_nanos: 0,
            }),
    {
        let tracker = InputProofTracker {
            pending_pixel_input: Vec::new(),
            pending_presented_input: Vec::new(),
            pending_presented_pointer: Vec::new(),
            observed_keycodes: Vec::new(),
            presented_keycodes: Vec::new(),
            routed_input: 0,
            routed_keys: 0,
            routed_pointer: 0,
            input_pixel_changes: 0,
            input_presentations: 0,
            pointer_presentations: 0,
            max_latency_nanos: 0,
        };
        assert(tracker@.observed_keycodes =~= Set::<u32>::empty());
        assert(tracker@.presented_keycodes =~= Set::<u32>::empty());
        tracker
    }

    /// Records one input the client accepted, routed at `now`.
    pub fn record_routed_input(&mut self, kind: InputEventKind, now_nanos: u64, last_checksum: Option<u64>)
        requires
            old(self).wf(),
        ensures
            final(self).wf(),
            final(self)@ == routed_step(old(self)@, kind, now_nanos, last_checksum),
    {
        self.routed_input = add_one_saturating(self.routed_input);
        match kind {
            InputEventKind::Key { keycode, pressed } => {
                self.routed_keys = add_one_saturating(self.routed_keys);
                if pressed {
                    insert_increasing(&mut self.observed_keycodes, keycode);
                    self.pending_pixel_input.push((now_nanos, last_checksum));
                    self.pending_presented_input.push((now_nanos, keycode));
                }
            },
            _ => {
                self.routed_pointer = add_one_saturating(self.routed_pointer);
                self.pending_presented_pointer.push(now_nanos);
            },
        }
        assert(self@ =~= routed_step(old(self)@, kind, now_nanos, last_checksum));
    }

    /// Records that a frame with `checksum` (none when it was not read
    /// back) reached the screen at `now`.
    pub fn observe_presentation(&mut self, checksum: Option<u64>, now_nanos: u64)
        requires
            old(self).wf(),
        ensures
            final(self).wf(),
            final(self)@ == presented_step(old(self)@, checksum, now_nanos),
    {
        let ghost v = old(self)@;
        let ghost key_starts = v.pending_presented_input.map_values(|e: (u64, u32)| e.0);
        let ghost key_codes = v.pending_presented_input.map_values(|e: (u64, u32)| e.1);
        let mut keys: Vec<(u64, u32)> = Vec::new();
        std::mem::swap(&mut keys, &mut self.pending_presented_input);
        let mut i: usize = 0;
        assert(key_codes.subrange(0, 0).to_set() =~= Set::<u32>::empty());
        assert(v.presented_keycodes.union(Set::<u32>::empty()) =~= v.presented_keycodes);
        while i < keys.len()
            invariant
                self.wf(),
                i <= keys@.len(),
                keys@ == v.pending_presented_input,
                key_starts == keys@.map_values(|e: (u64, u32)| e.0),
                key_codes == keys@.map_values(|e: (u64, u32)| e.1),
                self.input_presentations == saturating_add_usize(v.input_presentations, i as nat),
                self.max_latency_nanos == max_elapsed(now_nanos, key_starts.subrange(0, i as int), v.max_latency_nanos),
                self.presented_keycodes@.to_set() == v.presented_keycodes.union(key_codes.subrange(0, i as int).to_set()),
                self.pending_presented_input@ == Seq::<(u64, u32)>::empty(),
                self.pending_presented_pointer@ == v.pending_presented_pointer,
                self.pending_pixel_input@ == v.pending_pixel_input,
                self.observed_keycodes@.to_set() == v.observed_keycodes,
                self.routed_input == v.routed_input,
                self.routed_keys == v.routed_keys,
                self.routed_pointer == v.routed_pointer,
                self.input_pixel_changes == v.input_pixel_changes,
                self.pointer_presentations == v.pointer_presentations,
            decreases keys@.len() - i,
        {
            let (started, keycode) = keys[i];
            proof {
                lemma_saturating_add_step(v.input_presentations, i as nat);
                assert(key_starts.subrange(0, i + 1).drop_last() =~= key_starts.subrange(0, i as int));
                assert(key_starts.subrange(0, i + 1).last() == started);
                assert(key_codes.subrange(0, i + 1) =~= key_codes.subrange(0, i as int).push(keycode));
                assert(key_codes.subrange(0, i + 1).to_set() =~= key_codes.subrange(0, i as int).to_set().insert(
                    keycode,
                ));
            }
            self.input_presentations = add_one_saturating(self.input_presentations);
            let e = elapsed_nanos(now_nanos, started);
            if e > self.max_latency_nanos {
                self.max_latency_nanos = e;
            }
            insert_increasing(&mut self.presented_keycodes, keycode);
            assert(self.presented_keycodes@.to_set() =~= v.presented_keycodes.union(
                key_codes.subrange(0, i + 1).to_set(),
            ));
            i = i + 1;
        }
        assert(key_starts.subrange(0, key_starts.len() as int) =~= key_starts);
        assert(key_codes.subrange(0, key_codes.len() as int) =~= key_codes);
        let ghost m1 = self.max_latency_nanos;
        let mut pointers: Vec<u64> = Vec::new();
        std::mem::swap(&mut pointers, &mut self.pending_presented_pointer);
        let mut j: usize = 0;
        while j < pointers.len()
            invariant
                self.wf(),
                j <= pointers@.len(),
                pointers@ == v.pending_presented_pointer,
                self.pointer_presentations == saturating_add_usize(v.pointer_presentations, j as nat),
                self.max_latency_nanos == max_elapsed(now_nanos, pointers@.subrange(0, j as int), m1),
                self.input_presentations == saturating_add_usize(v.input_presentations, key_starts.len()),
                self.presented_keycodes@.to_set() == v.presented_keycodes.union(key_codes.to_set()),
                self.pending_presented_input@ == Seq::<(u64, u32)>::empty(),
                self.pending_presented_pointer@ == Seq::<u64>::empty(),
                self.pending_pixel_input@ == v.pending_pixel_input,
                self.observed_keycodes@.to_set() == v.observed_keycodes,
                self.routed_input == v.routed_input,
                self.routed_keys == v.routed_keys,
                self.routed_pointer == v.routed_pointer,
                self.input_pixel_changes == v.input_pixel_changes,
            decreases pointers@.len() - j,
        {
            let started = pointers[j];
            proof {
                lemma_saturating_add_step(v.pointer_presentations, j as nat);
                assert(pointers@.subrange(0, j + 1).drop_last() =~= pointers@.subrange(0, j as int));
            }
            self.pointer_presentations = add_one_saturating(self.pointer_presentations);
            let e = elapsed_nanos(now_nanos, started);
            if e > self.max_latency_nanos {
                self.max_latency_nanos = e;
            }
            j = j + 1;
        }
        assert(pointers@.subrange(0, pointers@.len() as int) =~= pointers@);
        let changed = match checksum {
            Some(c) => self.pending_pixel_input.len() > 0 && match self.pending_pixel_input[0].1 {
                Some(baseline) => baseline != c,
                None => true,
            },
            None => false,
        };
        if changed {
            let ghost m2 = self.max_latency_nanos;
            let ghost pixel_starts = v.pending_pixel_input.map_values(|e: (u64, Option<u64>)| e.0);
            let mut pixels: Vec<(u64, Option<u64>)> = Vec::new();
            std::mem::swap(&mut pixels, &mut self.pending_pixel_input);
            let mut k: usize = 0;
            while k < pixels.len()
                invariant
                    self.wf(),
                    k <= pixels@.len(),
                    pixels@ == v.pending_pixel_input,
                    pixel_starts == pixels@.map_values(|e: (u64, Option<u64>)| e.0),
                    self.input_pixel_changes == saturating_add_usize(v.input_pixel_changes, k as nat),
                    self.max_latency_nanos == max_elapsed(now_nanos, pixel_starts.subrange(0, k as int), m2),
                    self.pointer_presentations == saturating_add_usize(
                        v.pointer_presentations,
                        v.pending_presented_pointer.len(),
                    ),
                    self.input_presentations == saturating_add_usize(v.input_presentations, key_starts.len()),
                    self.presented_keycodes@.to_set() == v.presented_keycodes.union(key_codes.to_set()),
                    self.pending_presented_input@ == Seq::<(u64, u32)>::empty(),
                    self.pending_presented_pointer@ == Seq::<u64>::empty(),
                    self.pending_pixel_input@ == Seq::<(u64, Option<u64>)>::empty(),
                    self.observed_keycodes@.to_set() == v.observed_keycodes,
                    self.routed_input == v.routed_input,
                    self.routed_keys == v.routed_keys,
                    self.routed_pointer == v.routed_pointer,
                decreases pixels@.len() - k,
            {
                let (started, _) = pixels[k];
                proof {
                    lemma_saturating_add_step(v.input_pixel_changes, k as nat);
                    assert(pixel_starts.subrange(0, k + 1).drop_last() =~= pixel_starts.subrange(0, k as int));
                    assert(pixel_starts.subrange(0, k + 1).last() == started);
                }
                self.input_pixel_changes = add_one_saturating(self.input_pixel_changes);
                let e = elapsed_nanos(now_nanos, started);
                if e > self.max_latency_nanos {
                    self.max_latency_nanos = e;
                }
                k = k + 1;
            }
            assert(pixel_starts.subrange(0, pixel_starts.len() as int) =~= pixel_starts);
        }
        assert(self@ =~= presented_step(v, checksum, now_nanos));
    }

    /// The number of expected keycodes seen pressed by the client.
    pub fn observed_expected_keycodes(&self, expected: &Vec<u32>) -> (count: usize)
        ensures
            count == matched_keycodes(expected@, self@.observed_keycodes).len(),
    {
        count_found(expected, &self.observed_keycodes)
    }

    /// The number of expected keycodes that reached a presented frame.
    pub fn presented_expected_keycodes(&self, expected: &Vec<u32>) -> (count: usize)
        ensures
            count == matched_keycodes(expected@, self@.presented_keycodes).len(),
    {
        count_found(expected, &self.presented_keycodes)
    }

    /// Whether the run showed what it was asked to show.
    pub fn verdict(&self, expectations: &InputProofExpectations) -> (verdict: Result<(), InputProofError>)
        ensures
            verdict == spec_verdict(*expectations, self@),
    {
        if expectations.expect_input_pixel_change && (self.routed_input == 0 || self.input_pixel_changes == 0) {
            return Err(InputProofError::NoPresentedPixelChange);
        }
        if expectations.expect_input_presentation && (self.routed_input == 0 || self.input_presentations == 0) {
            return Err(InputProofError::NoPresentedClientFrame);
        }
        let matched = self.presented_expected_keycodes(&expectations.expected_keycodes);
        if matched != expectations.expected_keycodes.len() {
            return Err(
                InputProofError::KeycodesNotPresented { matched, total: expectations.expected_keycodes.len() },
            );
        }
        if expectations.expect_pointer_input && self.routed_pointer == 0 {
            return Err(InputProofError::NoRoutedPointerInput);
        }
        if expectations.expect_pointer_input && self.pointer_presentations == 0 {
            return Err(InputProofError::PointerNotPresented);
        }
        if expectations.expect_input_pixel_change || expectations.expect_input_presentation {
            let limit_nanos = expectations.max_input_latency_msec as u128 * 1_000_000;
            if self.max_latency_nanos as u128 > limit_nanos {
                return Err(
                    InputProofError::LatencyExceeded {
                        observed_msec: self.max_latency_nanos / 1_000_000,
                        limit_msec: expectations.max_input_latency_msec,
                    },
                );
            }
        }
        Ok(())
    }

    pub fn routed_input(&self) -> (n: usize)
        ensures
            n == self@.routed_input,
    {
        self.routed_input
    }

    pub fn routed_keys(&self) -> (n: usize)
        ensures
            n == self@.routed_keys,
    {
        self.routed_keys
    }

    pub fn routed_pointer(&self) -> (n: usize)
        ensures
            n == self@.routed_pointer,
    {
        self.routed_pointer
    }

    pub fn input_pixel_changes(&self) -> (n: usize)
        ensures
            n == self@.input_pixel_changes,
    {
        self.input_pixel_changes
    }

    pub fn input_presentations(&self) -> (n: usize)
        ensures
            n == self@.input_presentations,
    {
        self.input_presentations
    }

    pub fn pointer_presentations(&self) -> (n: usize)
        ensures
            n == self@.pointer_presentations,
    {
        self.pointer_presentations
    }

    pub fn max_latency_nanos(&self) -> (n: u64)
        ensures
            n == self@.max_latency_nanos,
    {
        self.max_latency_nanos
    }
}

/// The number of `expected` values that occur in `found`.
fn count_found(expected: &Vec<u32>, found: &Vec<u32>) -> (count: usize)
    ensures
        count == matched_keycodes(expected@, found@.to_set()).len(),
{
    let ghost pred = |k: u32| found@.to_set().contains(k);
    let mut count: usize = 0;
    let mut i: usize = 0;
    proof {
        reveal(Seq::filter);
        assert(expected@.subrange(0, 0).filter(pred) =~= Seq::<u32>::empty());
    }
    while i < expected.len()
        invariant
            i <= expected@.len(),
            pred == (|k: u32| found@.to_set().contains(k)),
            count <= i,
            count == expected@.subrange(0, i as int).filter(pred).len(),
        decreases expected@.len() - i,
    {
        let k = expected[i];
        proof {
            assert(expected@.subrange(0, i + 1) =~= expected@.subrange(0, i as int).push(k));
            expected@.subrange(0, i as int).lemma_filter_push(k, pred);
        }
        let mut found_it = false;
        let mut j: usize = 0;
        while j < found.len()
            invariant
                j <= found@.len(),
                found_it == exists|x: int| 0 <= x < j && found@[x] == k,
            decreases found@.len() - j,
        {
            if found[j] == k {
                found_it = true;
            }
            j = j + 1;
        }
        assert(found_it == found@.contains(k));
        if found_it {
            count = count + 1;
        }
        i = i + 1;
    }
    assert(expected@.subrange(0, expected@.len() as int) =~= expected@);
    count
}

} // verus!

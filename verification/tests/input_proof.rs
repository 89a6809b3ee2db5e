use sophia_engine::input::InputEventKind;
use sophia_engine::input_proof::{InputProofError, InputProofExpectations, InputProofTracker};

const MS: u64 = 1_000_000;

fn key(keycode: u32, pressed: bool) -> InputEventKind {
    InputEventKind::Key { keycode, pressed }
}

fn expectations(keycodes: Vec<u32>) -> InputProofExpectations {
    InputProofExpectations {
        expect_input_pixel_change: true,
        expect_input_presentation: true,
        expect_pointer_input: false,
        expected_keycodes: keycodes,
        max_input_latency_msec: 100,
    }
}

#[test]
fn pressed_keys_wait_for_a_presented_frame() {
    let mut tracker = InputProofTracker::new();
    tracker.record_routed_input(key(24, true), 10 * MS, None);
    tracker.record_routed_input(key(24, false), 11 * MS, None);
    tracker.record_routed_input(key(31, true), 12 * MS, None);

    assert_eq!(tracker.routed_input(), 3);
    assert_eq!(tracker.routed_keys(), 3);
    assert_eq!(tracker.input_presentations(), 0);
    assert_eq!(tracker.observed_expected_keycodes(&vec![24, 31, 103]), 2);

    tracker.observe_presentation(Some(0xabc), 40 * MS);

    assert_eq!(tracker.input_presentations(), 2);
    assert_eq!(tracker.input_pixel_changes(), 2);
    assert_eq!(tracker.max_latency_nanos(), 30 * MS);
    assert_eq!(tracker.presented_expected_keycodes(&vec![24, 31, 103]), 2);
    assert_eq!(tracker.verdict(&expectations(vec![24, 31])), Ok(()));
    assert_eq!(
        tracker.verdict(&expectations(vec![24, 31, 103])),
        Err(InputProofError::KeycodesNotPresented { matched: 2, total: 3 })
    );
}

#[test]
fn unchanged_pixels_keep_key_input_waiting() {
    let mut tracker = InputProofTracker::new();
    tracker.record_routed_input(key(38, true), 5 * MS, Some(7));

    tracker.observe_presentation(Some(7), 9 * MS);
    assert_eq!(tracker.input_presentations(), 1);
    assert_eq!(tracker.input_pixel_changes(), 0);
    assert_eq!(
        tracker.verdict(&expectations(vec![38])),
        Err(InputProofError::NoPresentedPixelChange)
    );

    tracker.observe_presentation(None, 20 * MS);
    assert_eq!(tracker.input_pixel_changes(), 0);

    tracker.observe_presentation(Some(8), 250 * MS);
    assert_eq!(tracker.input_pixel_changes(), 1);
    assert_eq!(tracker.max_latency_nanos(), 245 * MS);
    assert_eq!(
        tracker.verdict(&expectations(vec![38])),
        Err(InputProofError::LatencyExceeded {
            observed_msec: 245,
            limit_msec: 100
        })
    );
}

#[test]
fn pointer_proofs_need_routed_and_presented_pointer_input() {
    let mut tracker = InputProofTracker::new();
    let pointer_only = InputProofExpectations {
        expect_input_pixel_change: false,
        expect_input_presentation: false,
        expect_pointer_input: true,
        expected_keycodes: Vec::new(),
        max_input_latency_msec: 1,
    };
    assert_eq!(
        tracker.verdict(&pointer_only),
        Err(InputProofError::NoRoutedPointerInput)
    );

    tracker.record_routed_input(InputEventKind::PointerMotion, 1 * MS, None);
    assert_eq!(tracker.routed_pointer(), 1);
    assert_eq!(
        tracker.verdict(&pointer_only),
        Err(InputProofError::PointerNotPresented)
    );

    tracker.observe_presentation(None, 500 * MS);
    assert_eq!(tracker.pointer_presentations(), 1);
    assert_eq!(tracker.max_latency_nanos(), 499 * MS);
    assert_eq!(tracker.verdict(&pointer_only), Ok(()));
}

#[test]
fn presentation_without_input_fails_the_frame_proof() {
    let tracker = InputProofTracker::new();
    let presentation_only = InputProofExpectations {
        expect_input_pixel_change: false,
        expect_input_presentation: true,
        expect_pointer_input: false,
        expected_keycodes: Vec::new(),
        max_input_latency_msec: 100,
    };

    assert_eq!(
        tracker.verdict(&presentation_only),
        Err(InputProofError::NoPresentedClientFrame)
    );
}

#[test]
fn latency_is_never_negative_for_clock_skew() {
    let mut tracker = InputProofTracker::new();
    tracker.record_routed_input(key(24, true), 90 * MS, None);

    tracker.observe_presentation(Some(1), 80 * MS);

    assert_eq!(tracker.max_latency_nanos(), 0);
    assert_eq!(tracker.verdict(&expectations(vec![24])), Ok(()));
}

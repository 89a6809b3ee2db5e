use sophia_engine::evidence::{
    parse_exact_evidence_line, runtime_rendered_scanout_evidence_is_clean, RETIRE_PREFIX,
    SUBMIT_PREFIX,
};

const SUBMIT_FIELDS: &str = "schema=3 status=SubmittedWaitingForPageFlip scanout_target=Ready output_size=1280x720 target=Ready target_size=1280x720 export=Exported scanout_buffer=Ready properties=Discovered resources=Created request=Built submit=SubmittedWaitingForPageFlip request_scope=PageFlip commit_page_flip_event=true commit_nonblocking=true commit_allow_modeset=false commit_test_only=false commit_submit=Submitted runtime_scanout_state=Submitted in_flight=true in_flight_ticks=0 cleanup_pending=false";

const RETIRE_FIELDS: &str = "schema=1 status=RetiredAfterPageFlip destroy=Destroyed runtime_scanout_state=Retired in_flight=false in_flight_ticks=0 cleanup_pending=false";

fn submit() -> String {
    format!("{SUBMIT_PREFIX} {SUBMIT_FIELDS}")
}

fn retire() -> String {
    format!("{RETIRE_PREFIX} {RETIRE_FIELDS}")
}

#[test]
fn clean_evidence_has_one_submit_and_one_retire() {
    assert!(runtime_rendered_scanout_evidence_is_clean(&[submit(), retire()]));
    assert!(runtime_rendered_scanout_evidence_is_clean(&[retire(), submit()]));
}

#[test]
fn evidence_fields_may_come_in_any_order_and_spacing() {
    let reversed = RETIRE_FIELDS.split(' ').rev().collect::<Vec<_>>().join("  \t");
    let line = format!("{RETIRE_PREFIX} {reversed} ");
    assert!(runtime_rendered_scanout_evidence_is_clean(&[submit(), line]));
}

#[test]
fn evidence_with_missing_extra_or_changed_fields_is_not_clean() {
    let missing = format!("{RETIRE_PREFIX} {}", RETIRE_FIELDS.replace(" destroy=Destroyed", ""));
    assert!(!runtime_rendered_scanout_evidence_is_clean(&[submit(), missing]));
    let extra = format!("{} extra=1", retire());
    assert!(!runtime_rendered_scanout_evidence_is_clean(&[submit(), extra]));
    let duplicate = format!("{} schema=1", retire().replace(" destroy=Destroyed", ""));
    assert!(!runtime_rendered_scanout_evidence_is_clean(&[submit(), duplicate]));
    let changed = retire().replace("in_flight=false", "in_flight=true");
    assert!(!runtime_rendered_scanout_evidence_is_clean(&[submit(), changed]));
    let glued = format!("{RETIRE_PREFIX}{RETIRE_FIELDS}");
    assert!(!runtime_rendered_scanout_evidence_is_clean(&[submit(), glued]));
}

#[test]
fn evidence_needs_exactly_two_lines_without_cleanup() {
    assert!(!runtime_rendered_scanout_evidence_is_clean(&[]));
    assert!(!runtime_rendered_scanout_evidence_is_clean(&[submit()]));
    assert!(!runtime_rendered_scanout_evidence_is_clean(&[submit(), submit()]));
    assert!(!runtime_rendered_scanout_evidence_is_clean(&[retire(), retire()]));
    assert!(!runtime_rendered_scanout_evidence_is_clean(&[submit(), retire(), retire()]));
    let cleanup = "sophia_runtime_rendered_scanout_cleanup schema=1".to_owned();
    assert!(!runtime_rendered_scanout_evidence_is_clean(&[submit(), cleanup]));
}

#[test]
fn exact_evidence_lines_name_every_field_once() {
    let fields = [("a", "1"), ("b", "two")];
    assert!(parse_exact_evidence_line("p b=two a=1", "p", &fields));
    assert!(!parse_exact_evidence_line("p a=1", "p", &fields));
    assert!(!parse_exact_evidence_line("p a=1 b=two a=1", "p", &fields));
    assert!(!parse_exact_evidence_line("q a=1 b=two", "p", &fields));
    assert!(!parse_exact_evidence_line("p a=1 b=2", "p", &fields));
    assert!(!parse_exact_evidence_line("p", "p", &fields));
}

use sophia_engine::engine::HeadlessEngine;
use sophia_engine::protocol::{
    BufferSource, CommittedSurfaceState, Rect, Region, Size, SurfaceId, SurfaceTransaction,
    SurfaceTransactionReadiness, TransactionId,
};
use sophia_engine::wayland_config::WaylandSessionConfig;
use sophia_engine::wayland_session::{remove_destroyed_surface, WaylandSessionProgress};

fn config(resize: &str) -> WaylandSessionConfig {
    let args = vec!["--client=/bin/app".to_owned(), format!("--resize={resize}"), "--resize-after-ms=100".to_owned()];
    WaylandSessionConfig::from_args(&args, "wl-1".to_owned()).unwrap()
}

fn transaction(raw: u64, surface: SurfaceId, previous: u64, width: i32, height: i32) -> SurfaceTransaction {
    let geometry = Rect { x: 0, y: 0, width, height };
    SurfaceTransaction {
        transaction: TransactionId::from_raw(raw),
        surface,
        previous_committed_generation: previous,
        target_geometry: geometry,
        target_buffer: BufferSource::CpuBuffer { handle: raw },
        damage: Region::single(geometry),
        readiness: SurfaceTransactionReadiness::Ready,
    }
}

fn state(surface: SurfaceId, generation: u64) -> CommittedSurfaceState {
    CommittedSurfaceState {
        surface,
        committed_generation: generation,
        geometry: Rect { x: 0, y: 0, width: 10, height: 10 },
        buffer: BufferSource::CpuBuffer { handle: 1 },
        damage: Region::empty(),
    }
}

#[test]
fn wayland_session_resizes_the_first_surface_once_due() {
    let config = config("800x600");
    let mut progress = WaylandSessionProgress::new();
    let surface = SurfaceId::new(1, 1);
    assert_eq!(progress.resize_due(&config, 500, &Vec::new()), None);
    let committed = vec![state(surface, 1), state(SurfaceId::new(2, 1), 1)];
    assert_eq!(progress.resize_due(&config, 99, &committed), None);
    assert_eq!(progress.resize_due(&config, 100, &committed), Some((surface, Size { width: 800, height: 600 })));
    progress.record_resize_requested();
    assert_eq!(progress.resize_due(&config, 200, &committed), None);
}

#[test]
fn wayland_session_counts_commits_that_reach_the_requested_size() {
    let config = config("800x600");
    let engine = HeadlessEngine::default();
    let surface = SurfaceId::new(1, 1);
    let mut committed: Vec<CommittedSurfaceState> = Vec::new();
    let mut progress = WaylandSessionProgress::new();

    let first = transaction(1, surface, 0, 800, 600);
    let commit = engine.commit_surface_transactions(first.transaction, std::slice::from_ref(&first), &mut committed);
    assert_eq!(progress.observe_commit(&config, &first, &commit, &committed), Some(1));
    assert_eq!((progress.transactions, progress.resize_commits), (1, 0));

    progress.record_resize_requested();
    let stale = transaction(2, surface, 0, 800, 600);
    let commit = engine.commit_surface_transactions(stale.transaction, std::slice::from_ref(&stale), &mut committed);
    assert_eq!(progress.observe_commit(&config, &stale, &commit, &committed), None);
    assert_eq!((progress.transactions, progress.resize_commits), (2, 0));

    let resized = transaction(3, surface, 1, 800, 600);
    let commit = engine.commit_surface_transactions(resized.transaction, std::slice::from_ref(&resized), &mut committed);
    assert_eq!(progress.observe_commit(&config, &resized, &commit, &committed), Some(2));
    assert_eq!((progress.transactions, progress.resize_commits), (3, 1));

    let other = transaction(4, surface, 2, 640, 480);
    let commit = engine.commit_surface_transactions(other.transaction, std::slice::from_ref(&other), &mut committed);
    assert_eq!(progress.observe_commit(&config, &other, &commit, &committed), Some(3));
    assert_eq!(progress.resize_commits, 1);
}

#[test]
fn destroyed_surface_hands_focus_to_the_first_left() {
    let a = SurfaceId::new(1, 1);
    let b = SurfaceId::new(2, 1);
    let mut committed = vec![state(a, 1), state(b, 2), state(a, 3)];
    assert_eq!(remove_destroyed_surface(&mut committed, a), Some(b));
    assert_eq!(committed, vec![state(b, 2)]);
    assert_eq!(remove_destroyed_surface(&mut committed, b), None);
    assert!(committed.is_empty());
}

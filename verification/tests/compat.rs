use sophia_engine::compat::{
    CapturedBuffer, CapturedSurface, CompatCaptureError, CompatCaptureState,
};
use sophia_engine::cpu_scene::CpuBufferFormat;
use sophia_engine::protocol::{
    BufferSource, Rect, Region, Size, SurfaceId, SurfaceTransactionReadiness, TransactionId,
};

fn buffer(handle: u64, width: i32, bytes: Vec<u8>) -> CapturedBuffer {
    CapturedBuffer { handle, pixmap: 0x40 + handle as u32, size: Size { width, height: 1 }, bytes }
}

fn surface(index: u32, source: BufferSource) -> CapturedSurface {
    let geometry = Rect { x: 0, y: 0, width: 2, height: 1 };
    CapturedSurface { surface: SurfaceId::new(index, 1), geometry, source, damage: Region::single(geometry) }
}

#[test]
fn compat_capture_turns_changed_buffers_into_one_batch() {
    let mut state = CompatCaptureState::new();
    let scene = vec![
        surface(1, BufferSource::CpuBuffer { handle: 7 }),
        surface(2, BufferSource::CpuBuffer { handle: 8 }),
        surface(3, BufferSource::DmaBuf { handle: 7 }),
    ];
    assert_eq!(state.capture_step(&Vec::new(), &scene), Ok(None));

    let batch = state.capture_step(&vec![buffer(7, 2, vec![1, 2, 3, 4, 5, 6, 7, 8])], &scene).unwrap().unwrap();
    assert_eq!(batch.transaction, TransactionId::from_raw(1));
    assert_eq!(batch.cpu_buffer_updates.len(), 1);
    let update = &batch.cpu_buffer_updates[0];
    assert_eq!((update.handle, update.pixmap, update.stride, update.generation), (7, 0x47, 8, 1));
    assert_eq!(update.format, CpuBufferFormat::Xrgb8888);
    assert_eq!(update.bytes, vec![1, 2, 3, 4, 5, 6, 7, 8]);
    assert_eq!(batch.transactions.len(), 1);
    let transaction = &batch.transactions[0];
    assert_eq!(transaction.transaction, TransactionId::from_raw(1));
    assert_eq!(transaction.surface, SurfaceId::new(1, 1));
    assert_eq!(transaction.previous_committed_generation, 0);
    assert_eq!(transaction.target_buffer, BufferSource::CpuBuffer { handle: 7 });
    assert_eq!(transaction.readiness, SurfaceTransactionReadiness::Ready);

    assert_eq!(state.capture_step(&vec![buffer(7, 2, vec![1, 2, 3, 4, 5, 6, 7, 8])], &scene), Ok(None));

    let next = state.capture_step(&vec![buffer(7, 2, vec![9; 8])], &scene).unwrap().unwrap();
    assert_eq!(next.transaction, TransactionId::from_raw(3));
    assert_eq!(next.cpu_buffer_updates[0].generation, 2);
    assert_eq!(next.transactions[0].previous_committed_generation, 1);
}

#[test]
fn compat_capture_refuses_buffers_without_a_stride() {
    let mut state = CompatCaptureState::new();
    let scene = vec![surface(1, BufferSource::CpuBuffer { handle: 7 })];
    assert_eq!(
        state.capture_step(&vec![buffer(7, -1, vec![1])], &scene),
        Err(CompatCaptureError::InvalidWidth)
    );
    assert_eq!(
        state.capture_step(&vec![buffer(8, i32::MAX, vec![1])], &scene),
        Err(CompatCaptureError::StrideOverflow)
    );
    let changed_elsewhere = state.capture_step(&vec![buffer(9, 1, vec![1, 2, 3, 4])], &scene);
    assert_eq!(changed_elsewhere, Ok(None));
}

use sophia_engine::cpu_scene::{
    cpu_buffer_checksum, output_frame_sources, CpuBufferFormat, CpuBufferRegistration,
    CpuCompositionLayer, OutputFrameSource, WaylandCpuScene, FNV_OFFSET_BASIS,
};
use sophia_engine::output::HeadlessOutput;
use sophia_engine::protocol::{
    BufferSource, CommittedSurfaceState, OutputId, Rect, Region, Size, SurfaceId,
};

fn buffer(handle: u64, generation: u64, fill: u8) -> CpuBufferRegistration {
    CpuBufferRegistration {
        handle,
        generation,
        size: Size { width: 2, height: 1 },
        stride: 8,
        format: CpuBufferFormat::Xrgb8888,
        bytes: vec![fill; 8],
    }
}

fn committed(index: u32, source: BufferSource, x: i32) -> CommittedSurfaceState {
    CommittedSurfaceState {
        surface: SurfaceId::new(index, 1),
        committed_generation: 1,
        geometry: Rect {
            x,
            y: 0,
            width: 2,
            height: 1,
        },
        buffer: source,
        damage: Region::empty(),
    }
}

#[test]
fn wayland_scene_keeps_the_newest_buffer_generation() {
    let mut scene = WaylandCpuScene::new(Size { width: 64, height: 64 });
    scene.register(buffer(7, 3, 0xaa));
    scene.register(buffer(7, 2, 0xbb));
    assert_eq!(scene.buffer_bytes(7), Some(&vec![0xaa; 8]));
    scene.register(buffer(7, 3, 0xcc));
    assert_eq!(scene.buffer_bytes(7), Some(&vec![0xcc; 8]));
    assert_eq!(scene.buffer_count(), 1);
}

#[test]
fn wayland_scene_releases_only_cpu_buffers() {
    let mut scene = WaylandCpuScene::new(Size { width: 64, height: 64 });
    scene.register(buffer(1, 1, 1));
    scene.register(buffer(2, 1, 2));

    scene.release(BufferSource::DmaBuf { handle: 1 });
    assert_eq!(scene.buffer_count(), 2);
    scene.release(BufferSource::CpuBuffer { handle: 1 });
    assert_eq!(scene.buffer_count(), 1);
    assert_eq!(scene.buffer_bytes(1), None);
}

#[test]
fn wayland_scene_composes_committed_surfaces_with_admitted_buffers() {
    let mut scene = WaylandCpuScene::new(Size { width: 64, height: 64 });
    scene.register(buffer(5, 4, 9));
    scene.observe_committed(&[
        committed(1, BufferSource::CpuBuffer { handle: 5 }, 0),
        committed(2, BufferSource::CpuBuffer { handle: 6 }, 10),
        committed(3, BufferSource::DmaBuf { handle: 5 }, 20),
        committed(4, BufferSource::CpuBuffer { handle: 5 }, 30),
    ]);

    let layers = scene.composition_layers();

    let layer = |x: i32| CpuCompositionLayer {
        geometry: Rect {
            x,
            y: 0,
            width: 2,
            height: 1,
        },
        handle: 5,
        size: Size { width: 2, height: 1 },
        stride: 8,
        generation: 4,
    };
    assert_eq!(layers, vec![layer(0), layer(30)]);
}

#[test]
fn checksum_is_fnv1a_over_the_buffers_in_order() {
    assert_eq!(cpu_buffer_checksum(&Vec::new()), FNV_OFFSET_BASIS);
    assert_eq!(cpu_buffer_checksum(&vec![b"a".to_vec()]), 0xaf63_dc4c_8601_ec8c);
    assert_eq!(
        cpu_buffer_checksum(&vec![b"foo".to_vec(), b"bar".to_vec()]),
        0x8594_4171_f739_67e8
    );
    assert_eq!(
        cpu_buffer_checksum(&vec![b"foobar".to_vec()]),
        cpu_buffer_checksum(&vec![b"foo".to_vec(), b"bar".to_vec()])
    );
    assert_ne!(
        cpu_buffer_checksum(&vec![b"foo".to_vec()]),
        cpu_buffer_checksum(&vec![b"fop".to_vec()])
    );
}

#[test]
fn secondary_outputs_get_marker_frames() {
    let output = |raw: u64, width: i32, height: i32| HeadlessOutput {
        id: OutputId::from_raw(raw),
        size: Size { width, height },
        scale: 1,
    };
    let outputs = [output(1, 1280, 720), output(2, 1920, 1080), output(3, 32, 16)];

    let sources = output_frame_sources(&outputs, Size { width: 1280, height: 720 });

    assert_eq!(sources[0], OutputFrameSource::Primary);
    let OutputFrameSource::Marker(second) = sources[1] else {
        panic!("expected a marker for the second output");
    };
    assert_eq!(second.size, Size { width: 64, height: 64 });
    assert_eq!(second.stride, 256);
    assert_eq!(second.byte, 2);
    assert_eq!(second.len, 256 * 64);
    assert_eq!(second.handle, 0x5350_4801);
    let OutputFrameSource::Marker(third) = sources[2] else {
        panic!("expected a marker for the third output");
    };
    assert_eq!(third.size, Size { width: 32, height: 16 });
    assert_eq!(third.len, 32 * 4 * 16);
    assert_eq!(third.byte, 3);

    let resized = output_frame_sources(&[output(1, 800, 600)], Size { width: 1280, height: 720 });
    let OutputFrameSource::Marker(first) = resized[0] else {
        panic!("a primary of another size needs a marker");
    };
    assert_eq!(first.byte, 1);
    assert_eq!(first.handle, 0x5350_4800);
}

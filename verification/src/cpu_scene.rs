//! The CPU scenes the sessions compose: which client buffers are admitted
//! and released, which committed surfaces have pixels to show, the marker
//! frames that identify secondary outputs, and a checksum that tells when
//! buffer contents changed.

use vstd::prelude::*;

use std::collections::BTreeMap;

use crate::output::HeadlessOutput;
use crate::protocol::{BufferSource, CommittedSurfaceState, CommittedSurfaceStateView, Rect, Size, committed_views};

verus! {

broadcast use vstd::seq_lib::group_seq_properties;

/// Pixel layouts a client buffer may use.
#[derive(Clone, Copy, Debug, PartialEq, Eq, Structural)]
pub enum CpuBufferFormat {
    Argb8888,
    Xrgb8888,
}

/// A shared-memory buffer a client registered.
#[derive(Clone, Debug, PartialEq, Eq)]
pub struct CpuBufferRegistration {
    pub handle: u64,
    pub generation: u64,
    pub size: Size,
    pub stride: u32,
    pub format: CpuBufferFormat,
    pub bytes: Vec<u8>,
}

/// A registered buffer as plain values.
pub struct CpuBufferView {
    pub handle: u64,
    pub generation: u64,
    pub size: Size,
    pub stride: u32,
    pub format: CpuBufferFormat,
    pub bytes: Seq<u8>,
}

impl View for CpuBufferRegistration {
    type V = CpuBufferView;

    open spec fn view(&self) -> CpuBufferView {
        CpuBufferView {
            handle: self.handle,
            generation: self.generation,
            size: self.size,
            stride: self.stride,
            format: self.format,
            bytes: self.bytes@,
        }
    }
}

/// One layer of a CPU composition: where a surface goes, and the buffer
/// (by handle) that fills it.
#[derive(Clone, Copy, Debug, PartialEq, Eq, Structural)]
pub struct CpuCompositionLayer {
    pub geometry: Rect,
    pub handle: u64,
    pub size: Size,
    pub stride: u32,
    pub generation: u64,
}

/// The layer of a committed surface, when it shows a registered CPU buffer.
pub open spec fn cpu_layer_of(state: CommittedSurfaceStateView, buffers: Map<u64, CpuBufferView>) -> Option<
    CpuCompositionLayer,
> {
    match state.buffer {
        BufferSource::CpuBuffer { handle } => if buffers.contains_key(handle) {
            let b = buffers[handle];
            Some(
                CpuCompositionLayer {
                    geometry: state.geometry,
                    handle,
                    size: b.size,
                    stride: b.stride,
                    generation: b.generation,
                },
            )
        } else {
            None
        },
        _ => None,
    }
}

/// The layers of the committed surfaces that have pixels, in their order.
pub open spec fn cpu_layers(committed: Seq<CommittedSurfaceStateView>, buffers: Map<u64, CpuBufferView>) -> Seq<
    CpuCompositionLayer,
>
    decreases committed.len(),
{
    if committed.len() == 0 {
        Seq::empty()
    } else {
        let rest = cpu_layers(committed.drop_last(), buffers);
        match cpu_layer_of(committed.last(), buffers) {
            Some(l) => rest.push(l),
            None => rest,
        }
    }
}

/// A Wayland session's scene: the client buffers it admitted and the
/// committed surfaces it composes.
pub struct WaylandCpuScene {
    output_size: Size,
    buffers: BTreeMap<u64, CpuBufferRegistration>,
    committed: Vec<CommittedSurfaceState>,
}

impl WaylandCpuScene {
    /// The admitted buffers as plain values, by handle.
    pub closed spec fn buffer_map(self) -> Map<u64, CpuBufferView> {
        self.buffers@.map_values(|b: CpuBufferRegistration| b@)
    }

    /// The committed surfaces the scene last saw.
    pub closed spec fn committed(self) -> Seq<CommittedSurfaceStateView> {
        committed_views(self.committed@)
    }

    pub closed spec fn spec_output_size(self) -> Size {
        self.output_size
    }

    pub fn new(output_size: Size) -> (scene: WaylandCpuScene)
        ensures
            scene.buffer_map() == Map::<u64, CpuBufferView>::empty(),
            scene.committed() == Seq::<CommittedSurfaceStateView>::empty(),
            scene.spec_output_size() == output_size,
    {
        let scene = WaylandCpuScene { output_size, buffers: BTreeMap::new(), committed: Vec::new() };
        assert(scene.buffer_map() =~= Map::<u64, CpuBufferView>::empty());
        assert(scene.committed() =~= Seq::<CommittedSurfaceStateView>::empty());
        scene
    }

    pub fn output_size(&self) -> (size: Size)
        ensures
            size == self.spec_output_size(),
    {
        self.output_size
    }

    /// Admits a buffer under its handle, unless the buffer already held
    /// there is of a later generation.
    pub fn register(&mut self, buffer: CpuBufferRegistration)
        ensures
            final(self).buffer_map() == if old(self).buffer_map().contains_key(buffer.handle) && old(
                self,
            ).buffer_map()[buffer.handle].generation > buffer.generation {
                old(self).buffer_map()
            } else {
                old(self).buffer_map().insert(buffer.handle, buffer@)
            },
            final(self).committed() == old(self).committed(),
            final(self).spec_output_size() == old(self).spec_output_size(),
    {
        let stale = match self.buffers.get(&buffer.handle) {
            Some(current) => current.generation > buffer.generation,
            None => false,
        };
        if !stale {
            let ghost v = buffer@;
            let handle = buffer.handle;
            self.buffers.insert(handle, buffer);
            assert(self.buffer_map() =~= old(self).buffer_map().insert(handle, v));
        }
    }

    /// Remembers the committed surfaces to compose.
    pub fn observe_committed(&mut self, committed: &[CommittedSurfaceState])
        ensures
            final(self).committed() == committed_views(committed@),
            final(self).buffer_map() == old(self).buffer_map(),
            final(self).spec_output_size() == old(self).spec_output_size(),
    {
        let mut copy: Vec<CommittedSurfaceState> = Vec::new();
        let mut i: usize = 0;
        while i < committed.len()
            invariant
                i <= committed@.len(),
                committed_views(copy@) == committed_views(committed@.subrange(0, i as int)),
            decreases committed@.len() - i,
        {
            let ghost before = copy@;
            let c = committed[i].copied();
            copy.push(c);
            assert(committed_views(copy@) =~= committed_views(before).push(committed@[i as int]@));
            assert(committed_views(committed@.subrange(0, i + 1)) =~= committed_views(
                committed@.subrange(0, i as int),
            ).push(committed@[i as int]@));
            i = i + 1;
        }
        assert(committed@.subrange(0, committed@.len() as int) =~= committed@);
        self.committed = copy;
    }

    /// A client released a buffer: a CPU buffer leaves the scene. Other
    /// buffers stay admitted, since their resource may be attached again.
    pub fn release(&mut self, source: BufferSource)
        ensures
            final(self).buffer_map() == match source {
                BufferSource::CpuBuffer { handle } => old(self).buffer_map().remove(handle),
                _ => old(self).buffer_map(),
            },
            final(self).committed() == old(self).committed(),
            final(self).spec_output_size() == old(self).spec_output_size(),
    {
        match source {
            BufferSource::CpuBuffer { handle } => {
                let _ = self.buffers.remove(&handle);
                assert(self.buffer_map() =~= old(self).buffer_map().remove(handle));
            },
            _ => {},
        }
    }

    pub fn buffer_count(&self) -> (count: usize)
        ensures
            count == self.buffer_map().len(),
    {
        assert(self.buffer_map().dom() =~= self.buffers@.dom());
        self.buffers.len()
    }

    /// The bytes of the buffer admitted under `handle`.
    pub fn buffer_bytes(&self, handle: u64) -> (bytes: Option<&Vec<u8>>)
        ensures
            match bytes {
                Some(b) => self.buffer_map().contains_key(handle) && b@ == self.buffer_map()[handle].bytes,
                None => !self.buffer_map().contains_key(handle),
            },
    {
        match self.buffers.get(&handle) {
            Some(b) => Some(&b.bytes),
            None => None,
        }
    }

    /// The layers to compose: each committed surface that shows an
    /// admitted CPU buffer, in commit order.
    pub fn composition_layers(&self) -> (layers: Vec<CpuCompositionLayer>)
        ensures
            layers@ == cpu_layers(self.committed(), self.buffer_map()),
    {
        let ghost cs = self.committed();
        let mut layers: Vec<CpuCompositionLayer> = Vec::new();
        let mut i: usize = 0;
        while i < self.committed.len()
            invariant
                i <= self.committed@.len(),
                cs == self.committed(),
                cs.len() == self.committed@.len(),
                layers@ == cpu_layers(cs.subrange(0, i as int), self.buffer_map()),
            decreases self.committed@.len() - i,
        {
            let state = &self.committed[i];
            assert(cs[i as int] == state@);
            assert(cs.subrange(0, i + 1).drop_last() =~= cs.subrange(0, i as int));
            assert(cs.subrange(0, i + 1).last() == state@);
            match state.buffer {
                BufferSource::CpuBuffer { handle } => {
                    match self.buffers.get(&handle) {
                        Some(b) => {
                            layers.push(
                                CpuCompositionLayer {
                                    geometry: state.geometry,
                                    handle,
                                    size: b.size,
                                    stride: b.stride,
                                    generation: b.generation,
                                },
                            );
                        },
                        None => {},
                    }
                },
                _ => {},
            }
            i = i + 1;
        }
        assert(cs.subrange(0, cs.len() as int) =~= cs);
        layers
    }
}

/// The 64-bit FNV-1a offset basis.
pub const FNV_OFFSET_BASIS: u64 = 0xcbf2_9ce4_8422_2325;

/// The 64-bit FNV prime.
pub const FNV_PRIME: u64 = 0x100_0000_01b3;

/// One FNV-1a step: the byte folded in, then the product wrapped.
pub open spec fn fnv_step(hash: u64, byte: u8) -> u64 {
    (((hash ^ (byte as u64)) as nat * FNV_PRIME as nat) % 0x1_0000_0000_0000_0000) as u64
}

/// FNV-1a of `bytes`, continued from `hash`.
pub open spec fn fnv_bytes(hash: u64, bytes: Seq<u8>) -> u64
    decreases bytes.len(),
{
    if bytes.len() == 0 {
        hash
    } else {
        fnv_step(fnv_bytes(hash, bytes.drop_last()), bytes.last())
    }
}

/// FNV-1a of the buffers one after another, continued from `hash`.
pub open spec fn fnv_buffers(hash: u64, buffers: Seq<Seq<u8>>) -> u64
    decreases buffers.len(),
{
    if buffers.len() == 0 {
        hash
    } else {
        fnv_bytes(fnv_buffers(hash, buffers.drop_last()), buffers.last())
    }
}

pub(crate) fn fnv_continue(hash: u64, bytes: &Vec<u8>) -> (h: u64)
    ensures
        h == fnv_bytes(hash, bytes@),
{
    let mut h = hash;
    let mut i: usize = 0;
    while i < bytes.len()
        invariant
            i <= bytes@.len(),
            h == fnv_bytes(hash, bytes@.subrange(0, i as int)),
        decreases bytes@.len() - i,
    {
        assert(bytes@.subrange(0, i + 1).drop_last() =~= bytes@.subrange(0, i as int));
        h = (h ^ bytes[i] as u64).wrapping_mul(FNV_PRIME);
        i = i + 1;
    }
    assert(bytes@.subrange(0, bytes@.len() as int) =~= bytes@);
    h
}

/// The contents of buffers (in handle order), hashed with FNV-1a so that
/// any change to their bytes shows.
pub fn cpu_buffer_checksum(buffers: &Vec<Vec<u8>>) -> (checksum: u64)
    ensures
        checksum == fnv_buffers(FNV_OFFSET_BASIS, buffers@.map_values(|b: Vec<u8>| b@)),
{
    let ghost all = buffers@.map_values(|b: Vec<u8>| b@);
    let mut h = FNV_OFFSET_BASIS;
    let mut i: usize = 0;
    while i < buffers.len()
        invariant
            i <= buffers@.len(),
            all == buffers@.map_values(|b: Vec<u8>| b@),
            h == fnv_buffers(FNV_OFFSET_BASIS, all.subrange(0, i as int)),
        decreases buffers@.len() - i,
    {
        assert(all.subrange(0, i + 1).drop_last() =~= all.subrange(0, i as int));
        assert(all.subrange(0, i + 1).last() == buffers@[i as int]@);
        h = fnv_continue(h, &buffers[i]);
        i = i + 1;
    }
    assert(all.subrange(0, all.len() as int) =~= all);
    h
}

/// A solid frame that marks a secondary output: a square of at most
/// 64x64 pixels in the corner, four bytes per pixel, every byte the
/// output's position plus one (at most 255).
#[derive(Clone, Copy, Debug, PartialEq, Eq, Structural)]
pub struct OutputMarker {
    pub geometry: Rect,
    pub handle: u64,
    pub size: Size,
    pub stride: u32,
    pub byte: u8,
    pub len: usize,
}

/// Where an output's frame comes from.
#[derive(Clone, Copy, Debug, PartialEq, Eq, Structural)]
pub enum OutputFrameSource {
    /// The composed primary frame, shown as it is.
    Primary,
    /// A marker frame composed for this output alone.
    Marker(OutputMarker),
}

/// `v` kept between 1 and 64.
pub open spec fn marker_extent(v: i32) -> i32 {
    if v > 64 {
        64
    } else if v < 1 {
        1
    } else {
        v
    }
}

/// The marker of the output at `index` of size `size`.
pub open spec fn spec_marker(index: int, size: Size) -> OutputMarker {
    let w = marker_extent(size.width);
    let h = marker_extent(size.height);
    OutputMarker {
        geometry: Rect { x: 0, y: 0, width: w, height: h },
        handle: if 0x5350_4800 + index > u64::MAX {
            u64::MAX
        } else {
            (0x5350_4800 + index) as u64
        },
        size: Size { width: w, height: h },
        stride: (w * 4) as u32,
        byte: if index + 1 > 255 {
            255u8
        } else {
            (index + 1) as u8
        },
        len: (w * 4 * h) as usize,
    }
}

/// The first output shows the primary frame when it has the primary
/// frame's size; every other output shows its marker.
pub open spec fn spec_frame_source(index: int, size: Size, primary: Size) -> OutputFrameSource {
    if index == 0 && size == primary {
        OutputFrameSource::Primary
    } else {
        OutputFrameSource::Marker(spec_marker(index, size))
    }
}

fn marker_for(index: usize, size: Size) -> (marker: OutputMarker)
    ensures
        marker == spec_marker(index as int, size),
{
    let w = if size.width > 64 {
        64
    } else if size.width < 1 {
        1
    } else {
        size.width
    };
    let h = if size.height > 64 {
        64
    } else if size.height < 1 {
        1
    } else {
        size.height
    };
    let handle = if index as u64 > u64::MAX - 0x5350_4800 {
        u64::MAX
    } else {
        0x5350_4800 + index as u64
    };
    let byte: u8 = if index >= 255 {
        255
    } else {
        (index + 1) as u8
    };
    let stride = (w * 4) as u32;
    let row = (w as usize) * 4;
    assert(row * (h as usize) <= 256 * 64) by (nonlinear_arith)
        requires
            row <= 256,
            1 <= h <= 64,
    ;
    let len = row * (h as usize);
    OutputMarker {
        geometry: Rect { x: 0, y: 0, width: w, height: h },
        handle,
        size: Size { width: w, height: h },
        stride,
        byte,
        len,
    }
}

/// The frame source of each output, in order.
pub fn output_frame_sources(outputs: &[HeadlessOutput], primary_size: Size) -> (sources: Vec<OutputFrameSource>)
    ensures
        sources@.len() == outputs@.len(),
        forall|i: int|
            0 <= i < outputs@.len() ==> #[trigger] sources@[i] == spec_frame_source(i, outputs@[i].size, primary_size),
{
    let mut sources: Vec<OutputFrameSource> = Vec::new();
    let mut i: usize = 0;
    while i < outputs.len()
        invariant
            i <= outputs@.len(),
            sources@.len() == i,
            forall|k: int|
                0 <= k < i ==> #[trigger] sources@[k] == spec_frame_source(k, outputs@[k].size, primary_size),
        decreases outputs@.len() - i,
    {
        let size = outputs[i].size;
        if i == 0 && size.width == primary_size.width && size.height == primary_size.height {
            sources.push(OutputFrameSource::Primary);
        } else {
            sources.push(OutputFrameSource::Marker(marker_for(i, size)));
        }
        i = i + 1;
    }
    sources
}

} // verus!

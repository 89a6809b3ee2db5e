//! The capture step of the compatibility provider: the buffers read back
//! from a compatibility X server are compared with the last capture by their
//! FNV-1a checksum; a changed buffer is replaced at the next generation, and
//! the surfaces that show a changed CPU buffer become one transaction batch.

use std::collections::BTreeMap;
use vstd::prelude::*;

use crate::cpu_scene::{CpuBufferFormat, FNV_OFFSET_BASIS, fnv_bytes, fnv_continue};
use crate::num::saturating_add_u64;
use crate::protocol::{
    BufferSource, Rect, Region, Size, SurfaceId, SurfaceTransaction, SurfaceTransactionReadiness, TransactionId,
};

verus! {

broadcast use vstd::std_specs::btree::group_btree_axioms;

/// One buffer read back from the compatibility server.
#[derive(Clone, Debug, PartialEq, Eq)]
pub struct CapturedBuffer {
    pub handle: u64,
    pub pixmap: u32,
    pub size: Size,
    pub bytes: Vec<u8>,
}

/// One surface of the captured scene and the buffer it shows.
#[derive(Clone, Debug, PartialEq, Eq)]
pub struct CapturedSurface {
    pub surface: SurfaceId,
    pub geometry: Rect,
    pub source: BufferSource,
    pub damage: Region,
}

/// A changed buffer, replaced whole at its next generation.
#[derive(Clone, Debug, PartialEq, Eq)]
pub struct CompatBufferUpdate {
    pub handle: u64,
    pub pixmap: u32,
    pub size: Size,
    pub stride: u32,
    pub format: CpuBufferFormat,
    pub generation: u64,
    pub bytes: Vec<u8>,
}

/// A buffer update as plain values.
pub struct CompatBufferUpdateView {
    pub handle: u64,
    pub pixmap: u32,
    pub size: Size,
    pub stride: u32,
    pub format: CpuBufferFormat,
    pub generation: u64,
    pub bytes: Seq<u8>,
}

impl View for CompatBufferUpdate {
    type V = CompatBufferUpdateView;

    open spec fn view(&self) -> CompatBufferUpdateView {
        CompatBufferUpdateView {
            handle: self.handle,
            pixmap: self.pixmap,
            size: self.size,
            stride: self.stride,
            format: self.format,
            generation: self.generation,
            bytes: self.bytes@,
        }
    }
}

/// The updates of a capture as plain values.
pub open spec fn update_views(updates: Seq<CompatBufferUpdate>) -> Seq<CompatBufferUpdateView> {
    updates.map_values(|u: CompatBufferUpdate| u@)
}

/// What one capture hands the session.
#[derive(Clone, Debug, PartialEq, Eq)]
pub struct CompatCaptureBatch {
    pub transaction: TransactionId,
    pub transactions: Vec<SurfaceTransaction>,
    pub cpu_buffer_updates: Vec<CompatBufferUpdate>,
}

/// Why a capture could not be turned into a batch.
#[derive(Clone, Copy, Debug, PartialEq, Eq, Structural)]
pub enum CompatCaptureError {
    /// Every transaction id was handed out.
    TransactionIdsExhausted,
    /// A changed buffer has a negative width.
    InvalidWidth,
    /// A changed buffer's stride, four bytes per pixel, does not fit in 32 bits.
    StrideOverflow,
}

/// The checksums and generations after some of a capture's buffers, the
/// handles that changed, the updates made, and the error that stopped it.
pub struct CompatFold {
    pub checksums: Map<u64, u64>,
    pub generations: Map<u64, u64>,
    pub changed: Set<u64>,
    pub updates: Seq<CompatBufferUpdateView>,
    pub error: Option<CompatCaptureError>,
}

/// The FNV-1a checksum of a captured buffer's bytes.
pub open spec fn captured_checksum(b: CapturedBuffer) -> u64 {
    fnv_bytes(FNV_OFFSET_BASIS, b.bytes@)
}

/// The generation after `handle`'s last one, starting at 1.
pub open spec fn next_generation(generations: Map<u64, u64>, handle: u64) -> u64 {
    saturating_add_u64(if generations.contains_key(handle) { generations[handle] } else { 0 }, 1)
}

/// One buffer folded in: an unchanged checksum is skipped; a changed one is
/// recorded, and the buffer is replaced at its next generation unless its
/// width is negative or its stride too large.
pub open spec fn fold_step(f: CompatFold, b: CapturedBuffer) -> CompatFold {
    if f.error is Some {
        f
    } else if f.checksums.contains_key(b.handle) && f.checksums[b.handle] == captured_checksum(b) {
        f
    } else {
        let checksums = f.checksums.insert(b.handle, captured_checksum(b));
        let changed = f.changed.insert(b.handle);
        if b.size.width < 0 {
            CompatFold { checksums, changed, error: Some(CompatCaptureError::InvalidWidth), ..f }
        } else if b.size.width * 4 > u32::MAX {
            CompatFold { checksums, changed, error: Some(CompatCaptureError::StrideOverflow), ..f }
        } else {
            let generation = next_generation(f.generations, b.handle);
            CompatFold {
                checksums,
                generations: f.generations.insert(b.handle, generation),
                changed,
                updates: f.updates.push(
                    CompatBufferUpdateView {
                        handle: b.handle,
                        pixmap: b.pixmap,
                        size: b.size,
                        stride: (b.size.width * 4) as u32,
                        format: CpuBufferFormat::Xrgb8888,
                        generation,
                        bytes: b.bytes@,
                    },
                ),
                error: None,
            }
        }
    }
}

/// The buffers folded in, in order.
pub open spec fn fold_buffers(f: CompatFold, buffers: Seq<CapturedBuffer>) -> CompatFold
    decreases buffers.len(),
{
    if buffers.len() == 0 {
        f
    } else {
        fold_step(fold_buffers(f, buffers.drop_last()), buffers.last())
    }
}

/// The surface shows a CPU buffer that changed.
pub open spec fn shows_changed_buffer(s: CapturedSurface, changed: Set<u64>) -> bool {
    s.source matches BufferSource::CpuBuffer { handle } && changed.contains(handle)
}

/// The generation a surface's transaction builds on: one before its
/// buffer's generation.
pub open spec fn previous_generation(s: CapturedSurface, generations: Map<u64, u64>) -> u64 {
    let handle = match s.source {
        BufferSource::CpuBuffer { handle } => handle,
        _ => 0,
    };
    let g = if generations.contains_key(handle) { generations[handle] } else { 1 };
    if g == 0 { 0 } else { (g - 1) as u64 }
}

/// `t` moves `s` to its captured geometry and buffer, ready, on top of
/// `previous`.
pub open spec fn is_capture_transaction(
    t: SurfaceTransaction,
    transaction: TransactionId,
    s: CapturedSurface,
    previous: u64,
) -> bool {
    &&& t.transaction == transaction
    &&& t.surface == s.surface
    &&& t.previous_committed_generation == previous
    &&& t.target_geometry == s.geometry
    &&& t.target_buffer == s.source
    &&& t.damage.rects@ == s.damage.rects@
    &&& t.readiness == SurfaceTransactionReadiness::Ready
}

/// The surfaces of the capture that show a changed buffer, in order.
pub open spec fn changed_surfaces(surfaces: Seq<CapturedSurface>, changed: Set<u64>) -> Seq<CapturedSurface> {
    surfaces.filter(|s: CapturedSurface| shows_changed_buffer(s, changed))
}

/// The checksum and generation of each buffer handle, and the next
/// transaction id.
pub struct CompatCaptureState {
    serial: u64,
    generations: BTreeMap<u64, u64>,
    checksums: BTreeMap<u64, u64>,
}

impl CompatCaptureState {
    pub closed spec fn spec_serial(self) -> u64 {
        self.serial
    }

    pub closed spec fn spec_generations(self) -> Map<u64, u64> {
        self.generations@
    }

    pub closed spec fn spec_checksums(self) -> Map<u64, u64> {
        self.checksums@
    }

    /// Nothing captured yet; the first transaction id is 1.
    pub fn new() -> (state: CompatCaptureState)
        ensures
            state.spec_serial() == 1,
            state.spec_generations() == Map::<u64, u64>::empty(),
            state.spec_checksums() == Map::<u64, u64>::empty(),
    {
        CompatCaptureState { serial: 1, generations: BTreeMap::new(), checksums: BTreeMap::new() }
    }

    /// One capture. Nothing read back gives nothing and changes nothing.
    /// Otherwise the capture takes the next transaction id, folds its
    /// buffers in (see `fold_step`), and the surfaces that show a changed
    /// CPU buffer become the batch's transactions; a capture that changes
    /// no shown surface gives nothing.
    pub fn capture_step(&mut self, readbacks: &Vec<CapturedBuffer>, surfaces: &Vec<CapturedSurface>) -> (batch:
        Result<Option<CompatCaptureBatch>, CompatCaptureError>)
        ensures
            readbacks@.len() == 0 ==> {
                &&& batch == Ok::<Option<CompatCaptureBatch>, CompatCaptureError>(None)
                &&& final(self).spec_serial() == old(self).spec_serial()
                &&& final(self).spec_generations() == old(self).spec_generations()
                &&& final(self).spec_checksums() == old(self).spec_checksums()
            },
            readbacks@.len() > 0 && old(self).spec_serial() == u64::MAX ==> {
                &&& batch == Err::<Option<CompatCaptureBatch>, CompatCaptureError>(
                    CompatCaptureError::TransactionIdsExhausted,
                )
                &&& final(self).spec_serial() == old(self).spec_serial()
                &&& final(self).spec_generations() == old(self).spec_generations()
                &&& final(self).spec_checksums() == old(self).spec_checksums()
            },
            readbacks@.len() > 0 && old(self).spec_serial() < u64::MAX ==> {
                let f = fold_buffers(
                    CompatFold {
                        checksums: old(self).spec_checksums(),
                        generations: old(self).spec_generations(),
                        changed: Set::empty(),
                        updates: Seq::empty(),
                        error: None,
                    },
                    readbacks@,
                );
                let shown = changed_surfaces(surfaces@, f.changed);
                &&& final(self).spec_serial() == old(self).spec_serial() + 1
                &&& final(self).spec_generations() == f.generations
                &&& final(self).spec_checksums() == f.checksums
                &&& match f.error {
                    Some(e) => batch == Err::<Option<CompatCaptureBatch>, CompatCaptureError>(e),
                    None => if shown.len() == 0 {
                        batch == Ok::<Option<CompatCaptureBatch>, CompatCaptureError>(None)
                    } else {
                        batch matches Ok(Some(b)) && {
                            &&& b.transaction == TransactionId { raw: old(self).spec_serial() }
                            &&& update_views(b.cpu_buffer_updates@) == f.updates
                            &&& b.transactions@.len() == shown.len()
                            &&& forall|i: int|
                                0 <= i < shown.len() ==> #[trigger] is_capture_transaction(
                                    b.transactions@[i],
                                    b.transaction,
                                    shown[i],
                                    previous_generation(shown[i], f.generations),
                                )
                        }
                    },
                }
            },
    {
        if readbacks.len() == 0 {
            return Ok(None);
        }
        if self.serial == u64::MAX {
            return Err(CompatCaptureError::TransactionIdsExhausted);
        }
        let transaction = TransactionId { raw: self.serial };
        self.serial = self.serial + 1;
        let ghost start = CompatFold {
            checksums: self.checksums@,
            generations: self.generations@,
            changed: Set::empty(),
            updates: Seq::empty(),
            error: None,
        };
        let mut changed: Vec<u64> = Vec::new();
        let mut updates: Vec<CompatBufferUpdate> = Vec::new();
        assert(changed@.to_set() =~= Set::<u64>::empty());
        assert(update_views(updates@) =~= Seq::<CompatBufferUpdateView>::empty());
        let mut i: usize = 0;
        while i < readbacks.len()
            invariant
                i <= readbacks@.len(),
                fold_buffers(start, readbacks@.subrange(0, i as int)) == (CompatFold {
                    checksums: self.checksums@,
                    generations: self.generations@,
                    changed: changed@.to_set(),
                    updates: update_views(updates@),
                    error: None,
                }),
                self.serial == old(self).serial + 1,
                start.checksums == old(self).checksums@,
                start.generations == old(self).generations@,
                start.changed == Set::<u64>::empty(),
                start.updates == Seq::<CompatBufferUpdateView>::empty(),
                start.error == None::<CompatCaptureError>,
            decreases readbacks@.len() - i,
        {
            let b = &readbacks[i];
            let ghost before = fold_buffers(start, readbacks@.subrange(0, i as int));
            proof {
                assert(readbacks@.subrange(0, i + 1).drop_last() =~= readbacks@.subrange(0, i as int));
                assert(readbacks@.subrange(0, i + 1).last() == readbacks@[i as int]);
            }
            let checksum = fnv_continue(FNV_OFFSET_BASIS, &b.bytes);
            let unchanged = match self.checksums.get(&b.handle) {
                Some(c) => *c == checksum,
                None => false,
            };
            if !unchanged {
                self.checksums.insert(b.handle, checksum);
                let ghost old_changed = changed@;
                changed.push(b.handle);
                proof {
                    old_changed.lemma_push_to_set_commute(b.handle);
                }
                assert(changed@.to_set() =~= before.changed.insert(b.handle));
                if b.size.width < 0 {
                    proof {
                        lemma_fold_keeps_error(start, readbacks@, i as int + 1);
                    }
                    return Err(CompatCaptureError::InvalidWidth);
                }
                let width = b.size.width as u64;
                if width * 4 > u32::MAX as u64 {
                    proof {
                        lemma_fold_keeps_error(start, readbacks@, i as int + 1);
                    }
                    return Err(CompatCaptureError::StrideOverflow);
                }
                let stride = (width * 4) as u32;
                let generation = match self.generations.get(&b.handle) {
                    Some(g) => g.saturating_add(1),
                    None => 1,
                };
                self.generations.insert(b.handle, generation);
                let bytes = copy_bytes(&b.bytes);
                updates.push(
                    CompatBufferUpdate {
                        handle: b.handle,
                        pixmap: b.pixmap,
                        size: b.size,
                        stride,
                        format: CpuBufferFormat::Xrgb8888,
                        generation,
                        bytes,
                    },
                );
                assert(update_views(updates@) =~= before.updates.push(updates@.last()@));
            }
            i = i + 1;
        }
        proof {
            assert(readbacks@.subrange(0, readbacks@.len() as int) =~= readbacks@);
        }
        let ghost f = fold_buffers(start, readbacks@);
        let ghost keep = |s: CapturedSurface| shows_changed_buffer(s, f.changed);
        let mut transactions: Vec<SurfaceTransaction> = Vec::new();
        let mut j: usize = 0;
        while j < surfaces.len()
            invariant
                j <= surfaces@.len(),
                f.changed == changed@.to_set(),
                f.generations == self.generations@,
                keep == (|s: CapturedSurface| shows_changed_buffer(s, f.changed)),
                transactions@.len() == surfaces@.subrange(0, j as int).filter(keep).len(),
                forall|k: int|
                    0 <= k < transactions@.len() ==> #[trigger] is_capture_transaction(
                        transactions@[k],
                        transaction,
                        surfaces@.subrange(0, j as int).filter(keep)[k],
                        previous_generation(surfaces@.subrange(0, j as int).filter(keep)[k], f.generations),
                    ),
            decreases surfaces@.len() - j,
        {
            let s = &surfaces[j];
            proof {
                assert(surfaces@.subrange(0, j + 1) =~= surfaces@.subrange(0, j as int).push(surfaces@[j as int]));
                surfaces@.subrange(0, j as int).lemma_filter_push(surfaces@[j as int], keep);
            }
            match s.source {
                BufferSource::CpuBuffer { handle } => {
                    if contains_handle(&changed, handle) {
                        let g = match self.generations.get(&handle) {
                            Some(g) => *g,
                            None => 1,
                        };
                        let previous = if g == 0 { 0 } else { g - 1 };
                        transactions.push(
                            SurfaceTransaction {
                                transaction,
                                surface: s.surface,
                                previous_committed_generation: previous,
                                target_geometry: s.geometry,
                                target_buffer: s.source,
                                damage: s.damage.copied(),
                                readiness: SurfaceTransactionReadiness::Ready,
                            },
                        );
                    }
                },
                _ => {},
            }
            j = j + 1;
        }
        proof {
            assert(surfaces@.subrange(0, surfaces@.len() as int) =~= surfaces@);
        }
        if transactions.len() == 0 {
            return Ok(None);
        }
        Ok(Some(CompatCaptureBatch { transaction, transactions, cpu_buffer_updates: updates }))
    }
}

/// Once the fold stops on an error, later buffers change nothing.
proof fn lemma_fold_keeps_error(start: CompatFold, buffers: Seq<CapturedBuffer>, k: int)
    requires
        0 <= k <= buffers.len(),
        fold_buffers(start, buffers.subrange(0, k)).error is Some,
    ensures
        fold_buffers(start, buffers) == fold_buffers(start, buffers.subrange(0, k)),
    decreases buffers.len() - k,
{
    if k < buffers.len() {
        assert(buffers.subrange(0, k + 1).drop_last() =~= buffers.subrange(0, k));
        lemma_fold_keeps_error(start, buffers, k + 1);
    } else {
        assert(buffers.subrange(0, k) =~= buffers);
    }
}

/// Whether `handle` is among `handles`.
fn contains_handle(handles: &Vec<u64>, handle: u64) -> (found: bool)
    ensures
        found == handles@.contains(handle),
{
    let mut i: usize = 0;
    while i < handles.len()
        invariant
            i <= handles@.len(),
            forall|j: int| 0 <= j < i ==> handles@[j] != handle,
        decreases handles@.len() - i,
    {
        if handles[i] == handle {
            return true;
        }
        i = i + 1;
    }
    false
}

/// A copy of `bytes`.
fn copy_bytes(bytes: &Vec<u8>) -> (copy: Vec<u8>)
    ensures
        copy@ == bytes@,
{
    let mut copy: Vec<u8> = Vec::new();
    let mut i: usize = 0;
    while i < bytes.len()
        invariant
            i <= bytes@.len(),
            copy@ == bytes@.subrange(0, i as int),
        decreases bytes@.len() - i,
    {
        copy.push(bytes[i]);
        i = i + 1;
    }
    assert(bytes@.subrange(0, bytes@.len() as int) =~= bytes@);
    copy
}

} // verus!

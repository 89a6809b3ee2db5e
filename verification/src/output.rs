//! Outputs: the deterministic headless output, the DRM/KMS output registry,
//! the extended desktop that places outputs side by side, projection of
//! logical damage onto one output, and the variable-refresh-rate policy.

use vstd::prelude::*;

use crate::num::{clamp_i32, sat_add_i32, sat_mul_i32, sat_sub_i32, trunc_div};
use crate::protocol::{OutputId, Rect, Region, Size};

verus! {

/// The output the headless engine renders to.
#[derive(Clone, Copy, Debug, PartialEq, Eq, Structural)]
pub struct HeadlessOutput {
    pub id: OutputId,
    pub size: Size,
    pub scale: u32,
}

impl HeadlessOutput {
    /// Output 1, 1280x720, scale 1.
    pub fn deterministic() -> (output: HeadlessOutput)
        ensures
            output.id.raw == 1,
            output.size.width == 1280,
            output.size.height == 720,
            output.scale == 1,
    {
        HeadlessOutput { id: OutputId::from_raw(1), size: Size { width: 1280, height: 720 }, scale: 1 }
    }
}

impl Default for HeadlessOutput {
    fn default() -> (output: HeadlessOutput)
        ensures
            output.id.raw == 1,
            output.size.width == 1280,
            output.size.height == 720,
            output.scale == 1,
    {
        HeadlessOutput::deterministic()
    }
}

/// A display mode.
#[derive(Clone, Copy, Debug, PartialEq, Eq, Structural)]
pub struct DrmKmsMode {
    pub size: Size,
    pub refresh_millihz: u32,
}

impl DrmKmsMode {
    pub fn new(width: i32, height: i32, refresh_millihz: u32) -> (mode: DrmKmsMode)
        ensures
            mode.size == (Size { width, height }),
            mode.refresh_millihz == refresh_millihz,
    {
        DrmKmsMode { size: Size { width, height }, refresh_millihz }
    }
}

/// One connected DRM/KMS output.
#[derive(Clone, Copy, Debug, PartialEq, Eq, Structural)]
pub struct DrmKmsOutputDescriptor {
    pub output: OutputId,
    pub connector_id: u32,
    pub crtc_id: u32,
    pub mode: DrmKmsMode,
    pub scale: u32,
}

impl DrmKmsOutputDescriptor {
    /// The engine output this descriptor seeds.
    pub fn as_engine_output(&self) -> (output: HeadlessOutput)
        ensures
            output == (HeadlessOutput { id: self.output, size: self.mode.size, scale: self.scale }),
    {
        HeadlessOutput { id: self.output, size: self.mode.size, scale: self.scale }
    }
}

/// The most outputs a registry holds.
pub const MAX_DRM_KMS_OUTPUTS: usize = 16;

/// What an upsert did.
#[derive(Clone, Copy, Debug, PartialEq, Eq, Structural)]
pub enum DrmKmsOutputRegistryUpdate {
    Inserted,
    Replaced,
    CapacityExceeded,
}

/// Descriptors ordered by strictly increasing output id.
pub open spec fn outputs_sorted(s: Seq<DrmKmsOutputDescriptor>) -> bool {
    forall|i: int, j: int| 0 <= i < j < s.len() ==> (#[trigger] s[i]).output.raw < (#[trigger] s[j]).output.raw
}

/// The connected outputs, one descriptor per output id, in output order.
#[derive(Clone, Debug, PartialEq, Eq)]
pub struct DrmKmsOutputRegistry {
    outputs: Vec<DrmKmsOutputDescriptor>,
}

impl DrmKmsOutputRegistry {
    /// The descriptors in increasing output order.
    pub closed spec fn descriptors(self) -> Seq<DrmKmsOutputDescriptor> {
        self.outputs@
    }

    pub open spec fn wf(self) -> bool {
        outputs_sorted(self.descriptors())
    }

    /// The registry as a map from raw output id to descriptor.
    pub open spec fn as_map(self) -> Map<u64, DrmKmsOutputDescriptor> {
        Map::new(
            |raw: u64| exists|i: int| 0 <= i < self.descriptors().len() && (#[trigger] self.descriptors()[i]).output.raw == raw,
            |raw: u64| self.descriptors()[choose|i: int| 0 <= i < self.descriptors().len() && (#[trigger] self.descriptors()[i]).output.raw == raw],
        )
    }

    pub fn new() -> (registry: DrmKmsOutputRegistry)
        ensures
            registry.wf(),
            registry.descriptors().len() == 0,
    {
        DrmKmsOutputRegistry { outputs: Vec::new() }
    }

    pub fn len(&self) -> (len: usize)
        ensures
            len == self.descriptors().len(),
    {
        self.outputs.len()
    }

    pub fn outputs(&self) -> (outputs: &[DrmKmsOutputDescriptor])
        ensures
            outputs@ == self.descriptors(),
    {
        self.outputs.as_slice()
    }

    /// Inserts the descriptor, replacing the one with the same output id;
    /// a new output beyond the capacity is refused and nothing changes.
    pub fn upsert(&mut self, descriptor: DrmKmsOutputDescriptor) -> (update: DrmKmsOutputRegistryUpdate)
        requires
            old(self).wf(),
        ensures
            final(self).wf(),
            final(self).descriptors().len() <= MAX_DRM_KMS_OUTPUTS || final(self).descriptors().len()
                <= old(self).descriptors().len(),
            update == if old(self).as_map().dom().contains(descriptor.output.raw) {
                DrmKmsOutputRegistryUpdate::Replaced
            } else if old(self).descriptors().len() >= MAX_DRM_KMS_OUTPUTS {
                DrmKmsOutputRegistryUpdate::CapacityExceeded
            } else {
                DrmKmsOutputRegistryUpdate::Inserted
            },
            update == DrmKmsOutputRegistryUpdate::CapacityExceeded ==> final(self).descriptors() == old(self).descriptors(),
            update != DrmKmsOutputRegistryUpdate::CapacityExceeded ==> final(self).as_map() == old(
                self,
            ).as_map().insert(descriptor.output.raw, descriptor),
    {
        let mut i: usize = 0;
        while i < self.outputs.len() && self.outputs[i].output.raw < descriptor.output.raw
            invariant
                i <= self.outputs@.len(),
                self.outputs@ == old(self).outputs@,
                outputs_sorted(self.outputs@),
                forall|j: int| 0 <= j < i ==> (#[trigger] self.outputs@[j]).output.raw < descriptor.output.raw,
            decreases self.outputs@.len() - i,
        {
            i = i + 1;
        }
        let ghost before = self.outputs@;
        let replacing = i < self.outputs.len() && self.outputs[i].output.raw == descriptor.output.raw;
        proof {
            if !replacing {
                assert forall|k: int| 0 <= k < before.len() implies (#[trigger] before[k]).output.raw
                    != descriptor.output.raw by {
                    if k >= i {
                        assert(before[k].output.raw >= before[i as int].output.raw);
                    }
                }
            } else {
                assert(old(self).as_map().dom().contains(descriptor.output.raw));
            }
        }
        if !replacing && self.outputs.len() >= MAX_DRM_KMS_OUTPUTS {
            return DrmKmsOutputRegistryUpdate::CapacityExceeded;
        }
        if replacing {
            self.outputs.set(i, descriptor);
            assert(self.outputs@ == before.update(i as int, descriptor));
        } else {
            self.outputs.insert(i, descriptor);
            assert(self.outputs@ == before.insert(i as int, descriptor));
            assert forall|a: int, b: int| 0 <= a < b < self.outputs@.len() implies (
            #[trigger] self.outputs@[a]).output.raw < (#[trigger] self.outputs@[b]).output.raw by {
                if a < i && b > i {
                    assert(before[a].output.raw < before[i as int].output.raw || a == i);
                }
            }
        }
        let ghost after = self.outputs@;
        assert forall|raw: u64| #[trigger] self.as_map().dom().contains(raw)
            <==> old(self).as_map().insert(descriptor.output.raw, descriptor).dom().contains(raw) by {
            if self.as_map().dom().contains(raw) {
                let k = choose|k: int| 0 <= k < after.len() && (#[trigger] after[k]).output.raw == raw;
                if raw != descriptor.output.raw {
                    if k < i {
                        assert(before[k].output.raw == raw);
                    } else if after.len() == before.len() {
                        assert(before[k].output.raw == raw);
                    } else {
                        assert(before[k - 1].output.raw == raw);
                    }
                }
            }
            if old(self).as_map().insert(descriptor.output.raw, descriptor).dom().contains(raw) {
                if raw == descriptor.output.raw {
                    assert(after[i as int].output.raw == raw);
                } else {
                    let k = choose|k: int| 0 <= k < before.len() && (#[trigger] before[k]).output.raw == raw;
                    if k < i {
                        assert(after[k].output.raw == raw);
                    } else if after.len() == before.len() {
                        assert(k != i);
                        assert(after[k].output.raw == raw);
                    } else {
                        assert(after[k + 1].output.raw == raw);
                    }
                }
            }
        }
        assert forall|raw: u64| #[trigger] self.as_map().dom().contains(raw) implies self.as_map()[raw]
            == old(self).as_map().insert(descriptor.output.raw, descriptor)[raw] by {
            let k = choose|k: int| 0 <= k < after.len() && (#[trigger] after[k]).output.raw == raw;
            lemma_unique_index(after, k, raw);
            if raw == descriptor.output.raw {
                lemma_unique_index(after, i as int, raw);
            } else {
                let k0 = choose|k0: int| 0 <= k0 < before.len() && (#[trigger] before[k0]).output.raw == raw;
                lemma_unique_index(before, k0, raw);
                if k0 < i {
                    lemma_unique_index(after, k0, raw);
                } else if after.len() == before.len() {
                    lemma_unique_index(after, k0, raw);
                } else {
                    lemma_unique_index(after, k0 + 1, raw);
                }
            }
        }
        assert(self.as_map() =~= old(self).as_map().insert(descriptor.output.raw, descriptor));
        if replacing {
            DrmKmsOutputRegistryUpdate::Replaced
        } else {
            DrmKmsOutputRegistryUpdate::Inserted
        }
    }

    /// The descriptor of `output`, if registered.
    pub fn get(&self, output: OutputId) -> (found: Option<DrmKmsOutputDescriptor>)
        requires
            self.wf(),
        ensures
            found == (if self.as_map().dom().contains(output.raw) {
                Some(self.as_map()[output.raw])
            } else {
                None::<DrmKmsOutputDescriptor>
            }),
    {
        let mut i: usize = 0;
        while i < self.outputs.len()
            invariant
                i <= self.outputs@.len(),
                outputs_sorted(self.outputs@),
                forall|j: int| 0 <= j < i ==> (#[trigger] self.outputs@[j]).output.raw != output.raw,
            decreases self.outputs@.len() - i,
        {
            if self.outputs[i].output.raw == output.raw {
                proof {
                    lemma_unique_index(self.outputs@, i as int, output.raw);
                }
                return Some(self.outputs[i]);
            }
            i = i + 1;
        }
        None
    }

    /// Removes the descriptor of `output`, if registered.
    pub fn remove(&mut self, output: OutputId) -> (removed: Option<DrmKmsOutputDescriptor>)
        requires
            old(self).wf(),
        ensures
            final(self).wf(),
            removed == (if old(self).as_map().dom().contains(output.raw) {
                Some(old(self).as_map()[output.raw])
            } else {
                None::<DrmKmsOutputDescriptor>
            }),
            final(self).as_map() == old(self).as_map().remove(output.raw),
    {
        let mut i: usize = 0;
        while i < self.outputs.len()
            invariant
                i <= self.outputs@.len(),
                self.outputs@ == old(self).outputs@,
                outputs_sorted(self.outputs@),
                forall|j: int| 0 <= j < i ==> (#[trigger] self.outputs@[j]).output.raw != output.raw,
            decreases self.outputs@.len() - i,
        {
            if self.outputs[i].output.raw == output.raw {
                let ghost before = self.outputs@;
                proof {
                    lemma_unique_index(before, i as int, output.raw);
                }
                let removed = self.outputs.remove(i);
                let ghost after = self.outputs@;
                assert(after =~= before.remove(i as int));
                assert forall|raw: u64| #[trigger] self.as_map().dom().contains(raw)
                    <==> old(self).as_map().remove(output.raw).dom().contains(raw) by {
                    if self.as_map().dom().contains(raw) {
                        let k = choose|k: int| 0 <= k < after.len() && (#[trigger] after[k]).output.raw == raw;
                        if k < i {
                            assert(before[k].output.raw == raw);
                            assert(before[k].output.raw < before[i as int].output.raw);
                        } else {
                            assert(before[k + 1].output.raw == raw);
                            assert(before[i as int].output.raw < before[k + 1].output.raw);
                        }
                    }
                    if old(self).as_map().remove(output.raw).dom().contains(raw) {
                        let k = choose|k: int| 0 <= k < before.len() && (#[trigger] before[k]).output.raw == raw;
                        if k < i {
                            assert(after[k].output.raw == raw);
                        } else {
                            assert(k != i);
                            assert(after[k - 1].output.raw == raw);
                        }
                    }
                }
                assert forall|raw: u64| #[trigger] self.as_map().dom().contains(raw) implies self.as_map()[raw]
                    == old(self).as_map().remove(output.raw)[raw] by {
                    let k = choose|k: int| 0 <= k < after.len() && (#[trigger] after[k]).output.raw == raw;
                    lemma_unique_index(after, k, raw);
                    let k0 = choose|k0: int| 0 <= k0 < before.len() && (#[trigger] before[k0]).output.raw == raw;
                    lemma_unique_index(before, k0, raw);
                    if k < i {
                        assert(before[k].output.raw == raw);
                        lemma_unique_index(before, k, raw);
                    } else {
                        assert(before[k + 1].output.raw == raw);
                        lemma_unique_index(before, k + 1, raw);
                    }
                }
                assert(self.as_map() =~= old(self).as_map().remove(output.raw));
                return Some(removed);
            }
            i = i + 1;
        }
        assert(self.as_map() =~= old(self).as_map().remove(output.raw));
        None
    }

    /// The engine output of the registered output with the lowest id.
    pub fn primary_engine_output(&self) -> (output: Option<HeadlessOutput>)
        requires
            self.wf(),
        ensures
            match output {
                Some(o) => {
                    &&& self.descriptors().len() > 0
                    &&& o == (HeadlessOutput {
                        id: self.descriptors()[0].output,
                        size: self.descriptors()[0].mode.size,
                        scale: self.descriptors()[0].scale,
                    })
                    &&& forall|raw: u64| #[trigger] self.as_map().dom().contains(raw) ==> o.id.raw <= raw
                },
                None => self.descriptors().len() == 0,
            },
    {
        if self.outputs.len() == 0 {
            return None;
        }
        let first = self.outputs[0];
        assert forall|raw: u64| #[trigger] self.as_map().dom().contains(raw) implies first.output.raw <= raw by {
            let k = choose|k: int| 0 <= k < self.descriptors().len() && (#[trigger] self.descriptors()[k]).output.raw == raw;
            if k > 0 {
                assert(self.descriptors()[0].output.raw < self.descriptors()[k].output.raw);
            }
        }
        Some(first.as_engine_output())
    }
}

/// In a sorted sequence the descriptor of an output id sits at one index.
pub proof fn lemma_unique_index(s: Seq<DrmKmsOutputDescriptor>, k: int, raw: u64)
    requires
        outputs_sorted(s),
        0 <= k < s.len(),
        s[k].output.raw == raw,
    ensures
        (choose|i: int| 0 <= i < s.len() && (#[trigger] s[i]).output.raw == raw) == k,
{
    let c = choose|i: int| 0 <= i < s.len() && (#[trigger] s[i]).output.raw == raw;
    assert(0 <= c < s.len() && s[c].output.raw == raw);
    if c < k {
        assert(s[c].output.raw < s[k].output.raw);
    } else if c > k {
        assert(s[k].output.raw < s[c].output.raw);
    }
}

/// Where one output sits on the extended desktop.
#[derive(Clone, Copy, Debug, PartialEq, Eq, Structural)]
pub struct OutputLogicalGeometry {
    pub output: OutputId,
    pub logical: Rect,
    pub pixel_size: Size,
    pub scale: u32,
}

/// `rect` clipped to the output's logical area and made relative to it;
/// none when nothing of it lies on the output. Coordinates saturate.
pub open spec fn spec_project_rect(geometry: OutputLogicalGeometry, rect: Rect) -> Option<Rect> {
    let l = geometry.logical;
    let left = if rect.x >= l.x { rect.x } else { l.x };
    let top = if rect.y >= l.y { rect.y } else { l.y };
    let r1 = clamp_i32(rect.x + rect.width);
    let r2 = clamp_i32(l.x + l.width);
    let b1 = clamp_i32(rect.y + rect.height);
    let b2 = clamp_i32(l.y + l.height);
    let right = if r1 <= r2 { r1 } else { r2 };
    let bottom = if b1 <= b2 { b1 } else { b2 };
    let width = clamp_i32(right - left);
    let height = clamp_i32(bottom - top);
    if width > 0 && height > 0 {
        Some(Rect { x: clamp_i32(left - l.x), y: clamp_i32(top - l.y), width, height })
    } else {
        None
    }
}

/// The scale as an `i32` factor, at least 1.
pub open spec fn scale_factor(scale: u32) -> i32 {
    if scale == 0 {
        1
    } else if scale > i32::MAX {
        i32::MAX
    } else {
        scale as i32
    }
}

/// The projected rectangle in output pixels: scaled, and no larger than the output.
pub open spec fn spec_project_rect_pixels(geometry: OutputLogicalGeometry, rect: Rect) -> Option<Rect> {
    match spec_project_rect(geometry, rect) {
        None => None,
        Some(local) => {
            let s = scale_factor(geometry.scale);
            let w = clamp_i32(local.width * s);
            let h = clamp_i32(local.height * s);
            Some(
                Rect {
                    x: clamp_i32(local.x * s),
                    y: clamp_i32(local.y * s),
                    width: if w <= geometry.pixel_size.width { w } else { geometry.pixel_size.width },
                    height: if h <= geometry.pixel_size.height { h } else { geometry.pixel_size.height },
                },
            )
        },
    }
}

/// The projections of the rectangles that fall on the output, in order.
pub open spec fn project_all(
    geometry: OutputLogicalGeometry,
    rects: Seq<Rect>,
    pixels: bool,
) -> Seq<Rect>
    decreases rects.len(),
{
    if rects.len() == 0 {
        Seq::empty()
    } else {
        let rest = project_all(geometry, rects.drop_last(), pixels);
        let projected = if pixels {
            spec_project_rect_pixels(geometry, rects.last())
        } else {
            spec_project_rect(geometry, rects.last())
        };
        match projected {
            Some(r) => rest.push(r),
            None => rest,
        }
    }
}

impl OutputLogicalGeometry {
    pub fn project_rect(self, rect: Rect) -> (projected: Option<Rect>)
        ensures
            projected == spec_project_rect(self, rect),
    {
        let l = self.logical;
        let left = if rect.x >= l.x { rect.x } else { l.x };
        let top = if rect.y >= l.y { rect.y } else { l.y };
        let r1 = sat_add_i32(rect.x, rect.width);
        let r2 = sat_add_i32(l.x, l.width);
        let b1 = sat_add_i32(rect.y, rect.height);
        let b2 = sat_add_i32(l.y, l.height);
        let right = if r1 <= r2 { r1 } else { r2 };
        let bottom = if b1 <= b2 { b1 } else { b2 };
        let width = sat_sub_i32(right, left);
        let height = sat_sub_i32(bottom, top);
        if width > 0 && height > 0 {
            Some(Rect { x: sat_sub_i32(left, l.x), y: sat_sub_i32(top, l.y), width, height })
        } else {
            None
        }
    }

    pub fn project_damage(self, damage: &Region) -> (projected: Region)
        ensures
            projected.rects@ == project_all(self, damage.rects@, false),
    {
        self.project_region(damage, false)
    }

    pub fn project_rect_pixels(self, rect: Rect) -> (projected: Option<Rect>)
        ensures
            projected == spec_project_rect_pixels(self, rect),
    {
        let local = match self.project_rect(rect) {
            Some(local) => local,
            None => return None,
        };
        let s: i32 = if self.scale == 0 {
            1
        } else if self.scale > i32::MAX as u32 {
            i32::MAX
        } else {
            self.scale as i32
        };
        let w = sat_mul_i32(local.width, s);
        let h = sat_mul_i32(local.height, s);
        Some(
            Rect {
                x: sat_mul_i32(local.x, s),
                y: sat_mul_i32(local.y, s),
                width: if w <= self.pixel_size.width { w } else { self.pixel_size.width },
                height: if h <= self.pixel_size.height { h } else { self.pixel_size.height },
            },
        )
    }

    pub fn project_damage_pixels(self, damage: &Region) -> (projected: Region)
        ensures
            projected.rects@ == project_all(self, damage.rects@, true),
    {
        self.project_region(damage, true)
    }

    fn project_region(self, damage: &Region, pixels: bool) -> (projected: Region)
        ensures
            projected.rects@ == project_all(self, damage.rects@, pixels),
    {
        let mut rects: Vec<Rect> = Vec::new();
        let mut i: usize = 0;
        while i < damage.rects.len()
            invariant
                i <= damage.rects@.len(),
                rects@ == project_all(self, damage.rects@.subrange(0, i as int), pixels),
            decreases damage.rects@.len() - i,
        {
            let ghost prefix = damage.rects@.subrange(0, i as int);
            assert(damage.rects@.subrange(0, i + 1).drop_last() =~= prefix);
            let projected = if pixels {
                self.project_rect_pixels(damage.rects[i])
            } else {
                self.project_rect(damage.rects[i])
            };
            match projected {
                Some(r) => rects.push(r),
                None => {},
            }
            i = i + 1;
        }
        assert(damage.rects@.subrange(0, damage.rects@.len() as int) =~= damage.rects@);
        Region { rects }
    }
}

/// Logical sizes of outputs placed left to right, in output order.
pub open spec fn logical_extent(d: DrmKmsOutputDescriptor) -> Size {
    let s = scale_factor(d.scale);
    let w = trunc_div(d.mode.size.width as int, s as int);
    let h = trunc_div(d.mode.size.height as int, s as int);
    Size { width: if w >= 1 { w as i32 } else { 1 }, height: if h >= 1 { h as i32 } else { 1 } }
}

/// The geometry of every output on the extended desktop, and the desktop's
/// size, after placing `outputs` side by side from x = 0.
pub open spec fn layout_outputs(outputs: Seq<DrmKmsOutputDescriptor>) -> (
    Seq<OutputLogicalGeometry>,
    Size,
)
    decreases outputs.len(),
{
    if outputs.len() == 0 {
        (Seq::empty(), Size { width: 0, height: 0 })
    } else {
        let (placed, size) = layout_outputs(outputs.drop_last());
        let d = outputs.last();
        let extent = logical_extent(d);
        let geometry = OutputLogicalGeometry {
            output: d.output,
            logical: Rect { x: size.width, y: 0, width: extent.width, height: extent.height },
            pixel_size: d.mode.size,
            scale: if d.scale == 0 { 1 } else { d.scale },
        };
        (
            placed.push(geometry),
            Size {
                width: clamp_i32(size.width + extent.width),
                height: if size.height >= extent.height { size.height } else { extent.height },
            },
        )
    }
}

/// The extended desktop: outputs side by side in output order.
#[derive(Clone, Debug, PartialEq, Eq)]
pub struct ExtendedDesktopTopology {
    outputs: Vec<OutputLogicalGeometry>,
    logical_size: Size,
}

impl ExtendedDesktopTopology {
    pub closed spec fn geometries(self) -> Seq<OutputLogicalGeometry> {
        self.outputs@
    }

    pub closed spec fn spec_logical_size(self) -> Size {
        self.logical_size
    }

    pub fn from_drm_outputs(outputs: &DrmKmsOutputRegistry) -> (topology: ExtendedDesktopTopology)
        ensures
            (topology.geometries(), topology.spec_logical_size()) == layout_outputs(outputs.descriptors()),
    {
        let descriptors = outputs.outputs();
        let mut geometries: Vec<OutputLogicalGeometry> = Vec::new();
        let mut logical_x: i32 = 0;
        let mut logical_height: i32 = 0;
        let mut i: usize = 0;
        while i < descriptors.len()
            invariant
                i <= descriptors@.len(),
                (geometries@, Size { width: logical_x, height: logical_height }) == layout_outputs(
                    descriptors@.subrange(0, i as int),
                ),
            decreases descriptors@.len() - i,
        {
            let ghost prefix = descriptors@.subrange(0, i as int);
            assert(descriptors@.subrange(0, i + 1).drop_last() =~= prefix);
            let d = descriptors[i];
            let scale: u32 = if d.scale == 0 { 1 } else { d.scale };
            let s: i32 = if scale > i32::MAX as u32 { i32::MAX } else { scale as i32 };
            let w = d.mode.size.width / s;
            let h = d.mode.size.height / s;
            let width: i32 = if w >= 1 { w } else { 1 };
            let height: i32 = if h >= 1 { h } else { 1 };
            geometries.push(
                OutputLogicalGeometry {
                    output: d.output,
                    logical: Rect { x: logical_x, y: 0, width, height },
                    pixel_size: d.mode.size,
                    scale,
                },
            );
            logical_x = sat_add_i32(logical_x, width);
            logical_height = if logical_height >= height { logical_height } else { height };
            i = i + 1;
        }
        assert(descriptors@.subrange(0, descriptors@.len() as int) =~= descriptors@);
        ExtendedDesktopTopology {
            outputs: geometries,
            logical_size: Size { width: logical_x, height: logical_height },
        }
    }

    /// The geometry of `output`, if it is on the desktop.
    pub fn get(&self, output: OutputId) -> (found: Option<OutputLogicalGeometry>)
        ensures
            match found {
                Some(g) => g.output == output && self.geometries().contains(g),
                None => forall|i: int| 0 <= i < self.geometries().len() ==> (#[trigger] self.geometries()[i]).output != output,
            },
    {
        let mut i: usize = 0;
        while i < self.outputs.len()
            invariant
                i <= self.outputs@.len(),
                forall|j: int| 0 <= j < i ==> (#[trigger] self.outputs@[j]).output != output,
            decreases self.outputs@.len() - i,
        {
            if self.outputs[i].output.raw == output.raw {
                assert(self.outputs@.contains(self.outputs@[i as int]));
                return Some(self.outputs[i]);
            }
            i = i + 1;
        }
        None
    }

    pub fn outputs(&self) -> (outputs: &[OutputLogicalGeometry])
        ensures
            outputs@ == self.geometries(),
    {
        self.outputs.as_slice()
    }

    pub fn logical_size(&self) -> (size: Size)
        ensures
            size == self.spec_logical_size(),
    {
        self.logical_size
    }
}

/// Whether an output can refresh at a variable rate at all.
#[derive(Clone, Copy, Debug, PartialEq, Eq, Structural)]
pub struct OutputVrrCapability {
    pub capable: bool,
}

/// What the scene on an output looks like to the VRR policy.
#[derive(Clone, Copy, Debug, PartialEq, Eq, Structural)]
pub struct OutputVrrEligibility {
    pub opaque_fullscreen_surface_count: u8,
    pub unoccluded: bool,
    pub overlays_present: bool,
    pub composition_required: bool,
}

impl OutputVrrEligibility {
    pub open spec fn spec_fullscreen_eligible(self) -> bool {
        self.opaque_fullscreen_surface_count == 1 && self.unoccluded && !self.overlays_present
            && !self.composition_required
    }

    /// Exactly one opaque fullscreen surface, unoccluded, with no overlays
    /// and nothing to compose.
    pub fn fullscreen_eligible(self) -> (eligible: bool)
        ensures
            eligible == self.spec_fullscreen_eligible(),
    {
        self.opaque_fullscreen_surface_count == 1 && self.unoccluded && !self.overlays_present
            && !self.composition_required
    }
}

/// The outcome of the VRR policy for one output.
#[derive(Clone, Copy, Debug, PartialEq, Eq, Structural)]
pub enum OutputVrrDecision {
    Enabled,
    DisabledByPolicy,
    Unsupported,
    Ineligible,
}

/// Policy first, then capability, then the scene.
pub fn decide_output_vrr(
    policy_enabled: bool,
    capability: OutputVrrCapability,
    eligibility: OutputVrrEligibility,
) -> (decision: OutputVrrDecision)
    ensures
        decision == (if !policy_enabled {
            OutputVrrDecision::DisabledByPolicy
        } else if !capability.capable {
            OutputVrrDecision::Unsupported
        } else if !eligibility.spec_fullscreen_eligible() {
            OutputVrrDecision::Ineligible
        } else {
            OutputVrrDecision::Enabled
        }),
{
    if !policy_enabled {
        OutputVrrDecision::DisabledByPolicy
    } else if !capability.capable {
        OutputVrrDecision::Unsupported
    } else if !eligibility.fullscreen_eligible() {
        OutputVrrDecision::Ineligible
    } else {
        OutputVrrDecision::Enabled
    }
}

} // verus!

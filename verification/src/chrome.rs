//! Compositor chrome: sanitized window metadata from the metadata broker,
//! and validation of chrome actions (such as a close button) against the
//! current layout.

use std::collections::BTreeMap;
use vstd::prelude::*;

use crate::protocol::{Rect, SurfaceId, WorkspaceId};
use crate::text::{valid_notification_chrome_text, valid_text};

verus! {

broadcast use vstd::std_specs::btree::group_btree_axioms;

/// The longest chrome label, in UTF-8 bytes.
pub const MAX_CHROME_LABEL_LEN: usize = 128;

/// How far the session trusts a surface's client.
#[derive(Clone, Copy, Debug, PartialEq, Eq, Structural)]
pub enum TrustLevel {
    Unknown,
    Untrusted,
    Isolated,
    Trusted,
}

/// Whether a surface asks for the user's attention.
#[derive(Clone, Copy, Debug, PartialEq, Eq, Structural)]
pub enum AttentionState {
    Quiet,
    Notice,
    Urgent,
}

/// An icon the metadata broker vetted.
#[derive(Clone, Copy, Debug, PartialEq, Eq, Structural)]
pub struct IconTokenId {
    pub raw: u64,
}

/// A label to draw in chrome, possibly redacted by the broker.
#[derive(Clone, Debug, PartialEq, Eq)]
pub struct DisplayLabel {
    pub text: String,
    pub redacted: bool,
}

/// What the chrome draws for one surface.
#[derive(Clone, Debug, PartialEq, Eq)]
pub struct ChromeDescriptor {
    pub surface: SurfaceId,
    pub label: Option<DisplayLabel>,
    pub icon: Option<IconTokenId>,
    pub trust_level: TrustLevel,
    pub attention: AttentionState,
    pub generation: u64,
}

/// A chrome descriptor as plain values.
pub struct ChromeDescriptorView {
    pub surface: SurfaceId,
    pub label: Option<(Seq<char>, bool)>,
    pub icon: Option<IconTokenId>,
    pub trust_level: TrustLevel,
    pub attention: AttentionState,
    pub generation: u64,
}

impl View for ChromeDescriptor {
    type V = ChromeDescriptorView;

    open spec fn view(&self) -> ChromeDescriptorView {
        ChromeDescriptorView {
            surface: self.surface,
            label: match self.label {
                Some(l) => Some((l.text@, l.redacted)),
                None => None,
            },
            icon: self.icon,
            trust_level: self.trust_level,
            attention: self.attention,
            generation: self.generation,
        }
    }
}

/// Window metadata after the metadata broker sanitized it.
#[derive(Clone, Debug, PartialEq, Eq)]
pub struct SanitizedChromeMetadata {
    pub surface: SurfaceId,
    pub label: Option<String>,
    pub label_redacted: bool,
    pub icon: Option<IconTokenId>,
    pub trust_level: TrustLevel,
    pub attention: AttentionState,
    pub generation: u64,
}

/// What applying metadata did.
#[derive(Clone, Copy, Debug, PartialEq, Eq, Structural)]
pub enum MetadataChromeUpdate {
    Upserted { surface: SurfaceId },
    Removed { surface: SurfaceId },
    Rejected(MetadataChromeRejectReason),
}

/// Why metadata was refused.
#[derive(Clone, Copy, Debug, PartialEq, Eq, Structural)]
pub enum MetadataChromeRejectReason {
    InvalidSurface,
    InvalidLabel,
    StaleGeneration,
}

/// The map key of a surface: index in the high half, generation in the low.
pub open spec fn surface_key(surface: SurfaceId) -> u64 {
    (surface.index as u64 * 0x1_0000_0000 + surface.generation as u64) as u64
}

/// Distinct surfaces have distinct keys.
pub proof fn lemma_surface_key_injective(a: SurfaceId, b: SurfaceId)
    ensures
        surface_key(a) == surface_key(b) ==> a == b,
{
    assert(a.index as int * 0x1_0000_0000 + a.generation as int <= u64::MAX);
    assert(b.index as int * 0x1_0000_0000 + b.generation as int <= u64::MAX);
}

pub fn key_of(surface: SurfaceId) -> (key: u64)
    ensures
        key == surface_key(surface),
{
    surface.index as u64 * 0x1_0000_0000 + surface.generation as u64
}

/// The descriptor the metadata describes, as plain values.
pub open spec fn descriptor_of(metadata: SanitizedChromeMetadata) -> ChromeDescriptorView {
    ChromeDescriptorView {
        surface: metadata.surface,
        label: match metadata.label {
            Some(t) => Some((t@, metadata.label_redacted)),
            None => None,
        },
        icon: metadata.icon,
        trust_level: metadata.trust_level,
        attention: metadata.attention,
        generation: metadata.generation,
    }
}

/// A label is valid when it is non-empty, short and free of control characters.
pub open spec fn label_valid(metadata: SanitizedChromeMetadata) -> bool {
    match metadata.label {
        Some(t) => valid_text(t@, MAX_CHROME_LABEL_LEN),
        None => true,
    }
}

/// The descriptor map and update after applying `metadata`: the label is
/// checked first, then the surface, then that it is not older than what
/// the broker holds.
pub open spec fn apply_metadata_step(
    descriptors: Map<u64, ChromeDescriptorView>,
    metadata: SanitizedChromeMetadata,
) -> (Map<u64, ChromeDescriptorView>, MetadataChromeUpdate) {
    let k = surface_key(metadata.surface);
    if !label_valid(metadata) {
        (descriptors, MetadataChromeUpdate::Rejected(MetadataChromeRejectReason::InvalidLabel))
    } else if !metadata.surface.spec_valid() {
        (descriptors, MetadataChromeUpdate::Rejected(MetadataChromeRejectReason::InvalidSurface))
    } else if descriptors.contains_key(k) && descriptors[k].generation > metadata.generation {
        (descriptors, MetadataChromeUpdate::Rejected(MetadataChromeRejectReason::StaleGeneration))
    } else {
        (
            descriptors.insert(k, descriptor_of(metadata)),
            MetadataChromeUpdate::Upserted { surface: metadata.surface },
        )
    }
}

/// The descriptor map and update after removing `surface`'s metadata.
pub open spec fn remove_metadata_step(
    descriptors: Map<u64, ChromeDescriptorView>,
    surface: SurfaceId,
    generation: u64,
) -> (Map<u64, ChromeDescriptorView>, MetadataChromeUpdate) {
    let k = surface_key(surface);
    if !surface.spec_valid() {
        (descriptors, MetadataChromeUpdate::Rejected(MetadataChromeRejectReason::InvalidSurface))
    } else if descriptors.contains_key(k) && descriptors[k].generation > generation {
        (descriptors, MetadataChromeUpdate::Rejected(MetadataChromeRejectReason::StaleGeneration))
    } else {
        (descriptors.remove(k), MetadataChromeUpdate::Removed { surface })
    }
}

/// Chrome descriptors, one per surface, kept apart from layout.
pub struct ChromeBroker {
    descriptors: BTreeMap<u64, ChromeDescriptor>,
}

fn clone_descriptor(d: &ChromeDescriptor) -> (c: ChromeDescriptor)
    ensures
        c@ == d@,
{
    ChromeDescriptor {
        surface: d.surface,
        label: match &d.label {
            Some(l) => Some(DisplayLabel { text: l.text.clone(), redacted: l.redacted }),
            None => None,
        },
        icon: d.icon,
        trust_level: d.trust_level,
        attention: d.attention,
        generation: d.generation,
    }
}

/// A broker starts with no descriptors.
impl Default for ChromeBroker {
    fn default() -> (broker: ChromeBroker)
        ensures
            broker.wf(),
            broker.descriptor_map() == Map::<u64, ChromeDescriptorView>::empty(),
    {
        let broker = ChromeBroker { descriptors: BTreeMap::new() };
        assert(broker.descriptor_map() =~= Map::<u64, ChromeDescriptorView>::empty());
        broker
    }
}

impl ChromeBroker {
    /// The descriptors as plain values, keyed by `surface_key`.
    pub closed spec fn descriptor_map(self) -> Map<u64, ChromeDescriptorView> {
        self.descriptors@.map_values(|d: ChromeDescriptor| d@)
    }

    /// Every descriptor sits under its own surface's key.
    pub closed spec fn wf(self) -> bool {
        forall|k: u64| #[trigger] self.descriptors@.contains_key(k) ==> surface_key(self.descriptors@[k].surface) == k
    }

    /// Stores `descriptor` for its surface, replacing any earlier one.
    pub fn upsert(&mut self, descriptor: ChromeDescriptor)
        requires
            old(self).wf(),
        ensures
            final(self).wf(),
            final(self).descriptor_map() == old(self).descriptor_map().insert(
                surface_key(descriptor.surface),
                descriptor@,
            ),
    {
        let ghost v = descriptor@;
        let k = key_of(descriptor.surface);
        self.descriptors.insert(k, descriptor);
        assert(self.descriptor_map() =~= old(self).descriptor_map().insert(k, v));
    }

    /// Applies broker metadata; see `apply_metadata_step`.
    pub fn apply_metadata(&mut self, metadata: SanitizedChromeMetadata) -> (update: MetadataChromeUpdate)
        requires
            old(self).wf(),
        ensures
            final(self).wf(),
            (final(self).descriptor_map(), update) == apply_metadata_step(
                old(self).descriptor_map(),
                metadata,
            ),
    {
        let ghost m = metadata;
        let descriptor = match chrome_descriptor_from_metadata(metadata) {
            Ok(d) => d,
            Err(_) => return MetadataChromeUpdate::Rejected(MetadataChromeRejectReason::InvalidLabel),
        };
        if !descriptor.surface.is_valid() {
            return MetadataChromeUpdate::Rejected(MetadataChromeRejectReason::InvalidSurface);
        }
        let k = key_of(descriptor.surface);
        match self.descriptors.get(&k) {
            Some(existing) => {
                if existing.generation > descriptor.generation {
                    return MetadataChromeUpdate::Rejected(MetadataChromeRejectReason::StaleGeneration);
                }
            },
            None => {},
        }
        let surface = descriptor.surface;
        self.upsert(descriptor);
        MetadataChromeUpdate::Upserted { surface }
    }

    /// Removes a surface's metadata unless the removal is older than it.
    pub fn remove_metadata(&mut self, surface: SurfaceId, generation: u64) -> (update: MetadataChromeUpdate)
        requires
            old(self).wf(),
        ensures
            final(self).wf(),
            (final(self).descriptor_map(), update) == remove_metadata_step(
                old(self).descriptor_map(),
                surface,
                generation,
            ),
    {
        if !surface.is_valid() {
            return MetadataChromeUpdate::Rejected(MetadataChromeRejectReason::InvalidSurface);
        }
        let k = key_of(surface);
        match self.descriptors.get(&k) {
            Some(existing) => {
                if existing.generation > generation {
                    return MetadataChromeUpdate::Rejected(MetadataChromeRejectReason::StaleGeneration);
                }
            },
            None => {},
        }
        let _ = self.remove_surface(surface);
        MetadataChromeUpdate::Removed { surface }
    }

    /// A copy of the descriptor of `surface`.
    pub fn get(&self, surface: SurfaceId) -> (found: Option<ChromeDescriptor>)
        ensures
            match found {
                Some(d) => self.descriptor_map().contains_key(surface_key(surface)) && d@
                    == self.descriptor_map()[surface_key(surface)],
                None => !self.descriptor_map().contains_key(surface_key(surface)),
            },
    {
        match self.descriptors.get(&key_of(surface)) {
            Some(d) => Some(clone_descriptor(d)),
            None => None,
        }
    }

    /// Drops the descriptor of `surface`, returning it.
    pub fn remove_surface(&mut self, surface: SurfaceId) -> (removed: Option<ChromeDescriptor>)
        requires
            old(self).wf(),
        ensures
            final(self).wf(),
            final(self).descriptor_map() == old(self).descriptor_map().remove(surface_key(surface)),
            match removed {
                Some(d) => old(self).descriptor_map().contains_key(surface_key(surface)) && d@
                    == old(self).descriptor_map()[surface_key(surface)],
                None => !old(self).descriptor_map().contains_key(surface_key(surface)),
            },
    {
        let k = key_of(surface);
        let removed = self.descriptors.remove(&k);
        assert(self.descriptor_map() =~= old(self).descriptor_map().remove(k));
        removed
    }

    pub fn len(&self) -> (len: usize)
        ensures
            len == self.descriptor_map().len(),
    {
        assert(self.descriptor_map().dom() =~= self.descriptors@.dom());
        self.descriptors.len()
    }

    pub fn is_empty(&self) -> (empty: bool)
        ensures
            empty == (self.descriptor_map().len() == 0),
    {
        self.len() == 0
    }
}

/// The descriptor for sanitized metadata; refused when its label is invalid.
pub fn chrome_descriptor_from_metadata(metadata: SanitizedChromeMetadata) -> (descriptor: Result<
    ChromeDescriptor,
    MetadataChromeRejectReason,
>)
    ensures
        match descriptor {
            Ok(d) => label_valid(metadata) && d@ == descriptor_of(metadata),
            Err(reason) => !label_valid(metadata) && reason == MetadataChromeRejectReason::InvalidLabel,
        },
{
    let label = match metadata.label {
        Some(text) => {
            if valid_chrome_label(&text) {
                Some(DisplayLabel { text, redacted: metadata.label_redacted })
            } else {
                return Err(MetadataChromeRejectReason::InvalidLabel);
            }
        },
        None => None,
    };
    Ok(
        ChromeDescriptor {
            surface: metadata.surface,
            label,
            icon: metadata.icon,
            trust_level: metadata.trust_level,
            attention: metadata.attention,
            generation: metadata.generation,
        },
    )
}

/// Non-empty, at most 128 bytes, no control characters.
pub fn valid_chrome_label(text: &String) -> (valid: bool)
    ensures
        valid == valid_text(text@, MAX_CHROME_LABEL_LEN),
{
    valid_notification_chrome_text(text.as_str(), MAX_CHROME_LABEL_LEN)
}

/// What kind of layout node a surface is.
#[derive(Clone, Copy, Debug, PartialEq, Eq, Structural)]
pub enum LayoutNodeKind {
    Toplevel,
    Dialog,
    Popup,
}

/// What the window manager and chrome may do with a node.
#[derive(Clone, Copy, Debug, PartialEq, Eq, Structural)]
pub struct LayoutNodeCapabilities {
    pub closable: bool,
    pub resizable: bool,
    pub movable: bool,
}

impl LayoutNodeCapabilities {
    /// An ordinary toplevel: closable, resizable and movable.
    pub fn standard_toplevel() -> (caps: LayoutNodeCapabilities)
        ensures
            caps.closable && caps.resizable && caps.movable,
    {
        LayoutNodeCapabilities { closable: true, resizable: true, movable: true }
    }
}

/// The window manager's opaque view of one surface.
#[derive(Clone, Copy, Debug, PartialEq, Eq, Structural)]
pub struct LayoutNodeSnapshot {
    pub surface: SurfaceId,
    pub workspace: WorkspaceId,
    pub kind: LayoutNodeKind,
    pub capabilities: LayoutNodeCapabilities,
    pub geometry: Rect,
    pub generation: u64,
}

/// The chrome actions a user can take.
#[derive(Clone, Copy, Debug, PartialEq, Eq, Structural)]
pub enum ChromeActionKind {
    CloseSurfaceRequested,
}

/// A chrome action on a surface, tagged with the generation the chrome saw.
#[derive(Clone, Copy, Debug, PartialEq, Eq, Structural)]
pub struct ChromeActionRequest {
    pub surface: SurfaceId,
    pub generation: u64,
    pub kind: ChromeActionKind,
}

/// Whether a chrome action goes ahead.
#[derive(Clone, Copy, Debug, PartialEq, Eq, Structural)]
pub enum ChromeActionDecision {
    RequestPoliteClose { surface: SurfaceId },
    Rejected(ChromeActionRejectReason),
}

/// Why a chrome action was refused.
#[derive(Clone, Copy, Debug, PartialEq, Eq, Structural)]
pub enum ChromeActionRejectReason {
    UnknownSurface,
    StaleGeneration,
    NotClosable,
    UnsupportedAction,
}

/// The index of the first node of `surface`, if any.
pub open spec fn first_node_of(nodes: Seq<LayoutNodeSnapshot>, surface: SurfaceId) -> Option<int> {
    if exists|i: int| 0 <= i < nodes.len() && (#[trigger] nodes[i]).surface == surface {
        Some(
            choose|i: int|
                0 <= i < nodes.len() && (#[trigger] nodes[i]).surface == surface && forall|j: int|
                    0 <= j < i ==> (#[trigger] nodes[j]).surface != surface,
        )
    } else {
        None
    }
}

/// The decision for `request` against the first node of its surface.
pub open spec fn spec_validate_chrome_action(
    request: ChromeActionRequest,
    nodes: Seq<LayoutNodeSnapshot>,
) -> ChromeActionDecision {
    match first_node_of(nodes, request.surface) {
        None => ChromeActionDecision::Rejected(ChromeActionRejectReason::UnknownSurface),
        Some(i) => if nodes[i].generation != request.generation {
            ChromeActionDecision::Rejected(ChromeActionRejectReason::StaleGeneration)
        } else {
            match request.kind {
                ChromeActionKind::CloseSurfaceRequested => if nodes[i].capabilities.closable {
                    ChromeActionDecision::RequestPoliteClose { surface: request.surface }
                } else {
                    ChromeActionDecision::Rejected(ChromeActionRejectReason::NotClosable)
                },
            }
        },
    }
}

/// A chrome action goes ahead only for a known surface, at the generation
/// the chrome saw, when the surface allows it.
pub fn validate_chrome_action(request: &ChromeActionRequest, nodes: &[LayoutNodeSnapshot]) -> (decision:
    ChromeActionDecision)
    ensures
        decision == spec_validate_chrome_action(*request, nodes@),
{
    let mut i: usize = 0;
    while i < nodes.len()
        invariant
            i <= nodes@.len(),
            forall|j: int| 0 <= j < i ==> (#[trigger] nodes@[j]).surface != request.surface,
        decreases nodes@.len() - i,
    {
        if nodes[i].surface.same(&request.surface) {
            let node = nodes[i];
            proof {
                let c = choose|c: int|
                    0 <= c < nodes@.len() && (#[trigger] nodes@[c]).surface == request.surface
                        && forall|j: int| 0 <= j < c ==> (#[trigger] nodes@[j]).surface != request.surface;
                assert(0 <= c < nodes@.len() && nodes@[c].surface == request.surface
                    && forall|j: int| 0 <= j < c ==> (#[trigger] nodes@[j]).surface != request.surface)
                    by {
                    assert(nodes@[i as int].surface == request.surface);
                }
                if c < i {
                } else if c > i {
                    assert(nodes@[i as int].surface != request.surface);
                }
                assert(first_node_of(nodes@, request.surface) == Some(i as int));
            }
            if node.generation != request.generation {
                return ChromeActionDecision::Rejected(ChromeActionRejectReason::StaleGeneration);
            }
            return match request.kind {
                ChromeActionKind::CloseSurfaceRequested => {
                    if node.capabilities.closable {
                        ChromeActionDecision::RequestPoliteClose { surface: request.surface }
                    } else {
                        ChromeActionDecision::Rejected(ChromeActionRejectReason::NotClosable)
                    }
                },
            };
        }
        i = i + 1;
    }
    ChromeActionDecision::Rejected(ChromeActionRejectReason::UnknownSurface)
}

} // verus!

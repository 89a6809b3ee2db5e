//! Frame planning and replay: layers are stacked by rank (equal ranks keep
//! their order), every visible layer becomes one blit onto the output, and a
//! replay checks a planned frame against the engine before stepping it.

use vstd::prelude::*;

use crate::engine::{EngineError, HeadlessEngine};
use crate::output::HeadlessOutput;
use crate::protocol::{
    BufferSource, LayerSnapshot, LayerSnapshotView, OutputId, Rect, Region, Size, SurfaceId, layer_views,
};

verus! {

broadcast use vstd::seq_lib::group_seq_properties;

/// The output and serial of the frame to plan.
#[derive(Clone, Copy, Debug, PartialEq, Eq, Structural)]
pub struct FramePlanRequest {
    pub output: OutputId,
    pub frame_serial: u64,
}

/// What a render command does.
#[derive(Clone, Copy, Debug, PartialEq, Eq, Structural)]
pub enum RenderCommandKind {
    Blit,
}

/// One step of a frame: a surface drawn into a target region of the output.
#[derive(Clone, Debug, PartialEq, Eq)]
pub struct RenderCommand {
    pub kind: RenderCommandKind,
    pub source: Option<SurfaceId>,
    pub output: OutputId,
    pub target: Region,
    pub clip: Option<Region>,
    /// The blend alpha, an `f32` carried as its IEEE-754 bit pattern.
    pub alpha_bits: u32,
}

/// A render command as plain values.
pub struct RenderCommandView {
    pub kind: RenderCommandKind,
    pub source: Option<SurfaceId>,
    pub output: OutputId,
    pub target: Seq<Rect>,
    pub clip: Option<Seq<Rect>>,
    pub alpha_bits: u32,
}

impl View for RenderCommand {
    type V = RenderCommandView;

    open spec fn view(&self) -> RenderCommandView {
        RenderCommandView {
            kind: self.kind,
            source: self.source,
            output: self.output,
            target: self.target.rects@,
            clip: match self.clip {
                Some(c) => Some(c.rects@),
                None => None,
            },
            alpha_bits: self.alpha_bits,
        }
    }
}

/// A planned frame: the stacked layers, the commands that draw them, and
/// the damage they bring.
#[derive(Clone, Debug, PartialEq, Eq)]
pub struct FrameSnapshot {
    pub output: OutputId,
    pub output_size: Size,
    pub output_scale: u32,
    pub frame_serial: u64,
    pub layers: Vec<LayerSnapshot>,
    pub commands: Vec<RenderCommand>,
    pub damage: Region,
}

/// One replayed command.
#[derive(Clone, Debug, PartialEq, Eq)]
pub struct ReplayStep {
    pub command_index: usize,
    pub kind: RenderCommandKind,
    pub source: Option<SurfaceId>,
    pub target: Region,
    pub alpha_bits: u32,
}

/// A replayed frame.
#[derive(Clone, Debug, PartialEq, Eq)]
pub struct ReplayReport {
    pub output: OutputId,
    pub output_size: Size,
    pub output_scale: u32,
    pub frame_serial: u64,
    pub steps: Vec<ReplayStep>,
    pub damage: Region,
}

/// Whether an `f32`, given by its bit pattern, is greater than zero: a
/// positive sign, not zero and not NaN.
pub open spec fn f32_bits_positive(bits: u32) -> bool {
    0 < bits && bits <= 0x7f80_0000
}

/// Layers of one stacking rank.
pub open spec fn rank_is(rank: u32) -> spec_fn(LayerSnapshotView) -> bool {
    |l: LayerSnapshotView| l.stack_rank == rank
}

/// `out` is `input` stacked by rank, equal ranks in their input order.
pub open spec fn stacked_by_rank(out: Seq<LayerSnapshotView>, input: Seq<LayerSnapshotView>) -> bool {
    &&& forall|i: int, j: int| 0 <= i < j < out.len() ==> out[i].stack_rank <= out[j].stack_rank
    &&& forall|rank: u32| #[trigger] out.filter(rank_is(rank)) == input.filter(rank_is(rank))
}

/// A layer is drawn when it is opaque at all, covers some area and has a buffer.
pub open spec fn layer_renders(l: LayerSnapshotView) -> bool {
    f32_bits_positive(l.opacity_bits) && !l.geometry.spec_empty() && l.source != BufferSource::Absent
}

/// Where a layer is drawn: its crop, or else its geometry.
pub open spec fn layer_target(l: LayerSnapshotView) -> Rect {
    match l.crop {
        Some(c) => c,
        None => l.geometry,
    }
}

/// Whether a layer produces a command.
pub open spec fn layer_drawn(l: LayerSnapshotView) -> bool {
    layer_renders(l) && !layer_target(l).spec_empty()
}

/// The command that draws a layer.
pub open spec fn command_for(l: LayerSnapshotView, output: OutputId) -> RenderCommandView {
    RenderCommandView {
        kind: RenderCommandKind::Blit,
        source: Some(l.surface),
        output,
        target: seq![layer_target(l)],
        clip: match l.crop {
            Some(c) => Some(seq![c]),
            None => None,
        },
        alpha_bits: l.opacity_bits,
    }
}

/// The commands of the drawn layers, in stacking order.
pub open spec fn planned_commands(ls: Seq<LayerSnapshotView>, output: OutputId) -> Seq<RenderCommandView>
    decreases ls.len(),
{
    if ls.len() == 0 {
        Seq::empty()
    } else if layer_drawn(ls.last()) {
        planned_commands(ls.drop_last(), output).push(command_for(ls.last(), output))
    } else {
        planned_commands(ls.drop_last(), output)
    }
}

/// The damage of the drawn layers, in stacking order.
pub open spec fn planned_damage(ls: Seq<LayerSnapshotView>) -> Seq<Rect>
    decreases ls.len(),
{
    if ls.len() == 0 {
        Seq::empty()
    } else if layer_drawn(ls.last()) {
        planned_damage(ls.drop_last()) + ls.last().damage
    } else {
        planned_damage(ls.drop_last())
    }
}

/// Every layer names a valid surface.
pub open spec fn surfaces_valid(ls: Seq<LayerSnapshotView>) -> bool {
    forall|i: int| 0 <= i < ls.len() ==> (#[trigger] ls[i]).surface.spec_valid()
}

/// The position at which a layer of rank `rank` joins `out`: after every
/// layer of rank at most `rank`.
fn insertion_point(out: &Vec<LayerSnapshot>, rank: u32) -> (p: usize)
    requires
        forall|i: int, j: int| 0 <= i < j < out@.len() ==> out@[i].stack_rank <= out@[j].stack_rank,
    ensures
        p <= out@.len(),
        forall|i: int| 0 <= i < p ==> (#[trigger] out@[i]).stack_rank <= rank,
        forall|i: int| p <= i < out@.len() ==> (#[trigger] out@[i]).stack_rank > rank,
{
    let mut p: usize = out.len();
    while p > 0 && out[p - 1].stack_rank > rank
        invariant
            p <= out@.len(),
            forall|i: int, j: int| 0 <= i < j < out@.len() ==> out@[i].stack_rank <= out@[j].stack_rank,
            forall|i: int| p <= i < out@.len() ==> (#[trigger] out@[i]).stack_rank > rank,
        decreases p,
    {
        p = p - 1;
    }
    assert forall|i: int| 0 <= i < p implies (#[trigger] out@[i]).stack_rank <= rank by {
        assert(out@[i].stack_rank <= out@[p - 1].stack_rank);
    }
    p
}

/// Inserting a layer after every layer of lower or equal rank keeps the
/// other ranks and appends it to its own.
proof fn lemma_insert_by_rank(out: Seq<LayerSnapshotView>, p: int, x: LayerSnapshotView, rank: u32)
    requires
        0 <= p <= out.len(),
        forall|i: int| p <= i < out.len() ==> (#[trigger] out[i]).stack_rank > x.stack_rank,
    ensures
        out.insert(p, x).filter(rank_is(rank)) == if x.stack_rank == rank {
            out.filter(rank_is(rank)).push(x)
        } else {
            out.filter(rank_is(rank))
        },
{
    let f = rank_is(rank);
    let a = out.subrange(0, p);
    let b = out.subrange(p, out.len() as int);
    assert(out =~= a + b);
    assert(out.insert(p, x) =~= a + seq![x] + b);
    Seq::filter_distributes_over_add(a + seq![x], b, f);
    Seq::filter_distributes_over_add(a, seq![x], f);
    Seq::filter_distributes_over_add(a, b, f);
    assert(seq![x] =~= Seq::<LayerSnapshotView>::empty().push(x));
    Seq::<LayerSnapshotView>::empty().lemma_filter_push(x, f);
    assert(Seq::<LayerSnapshotView>::empty().filter(f) =~= Seq::<LayerSnapshotView>::empty()) by {
        reveal(Seq::filter);
    }
    if x.stack_rank == rank {
        assert(b.all(|l: LayerSnapshotView| !f(l))) by {
            assert forall|i: int| 0 <= i < b.len() implies !f(#[trigger] b[i]) by {
                assert(b[i] == out[p + i]);
            }
        }
        b.lemma_all_neg_filter_empty(f);
        assert(b.filter(f) =~= Seq::<LayerSnapshotView>::empty());
        assert(out.insert(p, x).filter(f) =~= out.filter(f).push(x));
    } else {
        assert(out.insert(p, x).filter(f) =~= out.filter(f));
    }
}

/// The layers stacked by rank; layers of equal rank keep their order.
pub fn stack_by_rank(layers: &Vec<LayerSnapshot>) -> (out: Vec<LayerSnapshot>)
    ensures
        stacked_by_rank(layer_views(out@), layer_views(layers@)),
{
    let mut out: Vec<LayerSnapshot> = Vec::new();
    let mut i: usize = 0;
    while i < layers.len()
        invariant
            i <= layers@.len(),
            forall|a: int, b: int| 0 <= a < b < out@.len() ==> out@[a].stack_rank <= out@[b].stack_rank,
            forall|rank: u32| #[trigger] layer_views(out@).filter(rank_is(rank)) == layer_views(
                layers@.subrange(0, i as int),
            ).filter(rank_is(rank)),
        decreases layers@.len() - i,
    {
        let layer = layers[i].copied();
        let p = insertion_point(&out, layer.stack_rank);
        let ghost before = layer_views(out@);
        let ghost x = layer@;
        out.insert(p, layer);
        assert(layer_views(out@) =~= before.insert(p as int, x));
        assert(layer_views(layers@.subrange(0, i + 1)) =~= layer_views(layers@.subrange(0, i as int)).push(x));
        assert forall|rank: u32| #[trigger] layer_views(out@).filter(rank_is(rank)) == layer_views(
            layers@.subrange(0, i + 1),
        ).filter(rank_is(rank)) by {
            lemma_insert_by_rank(before, p as int, x, rank);
            layer_views(layers@.subrange(0, i as int)).lemma_filter_push(x, rank_is(rank));
        }
        assert forall|a: int, b: int| 0 <= a < b < out@.len() implies out@[a].stack_rank
            <= out@[b].stack_rank by {
            assert(layer_views(out@)[a].stack_rank == out@[a].stack_rank);
            assert(layer_views(out@)[b].stack_rank == out@[b].stack_rank);
        }
        i = i + 1;
    }
    assert(layers@.subrange(0, layers@.len() as int) =~= layers@);
    assert forall|a: int, b: int| 0 <= a < b < layer_views(out@).len() implies layer_views(out@)[a].stack_rank
        <= layer_views(out@)[b].stack_rank by {
        assert(layer_views(out@)[a].stack_rank == out@[a].stack_rank);
        assert(layer_views(out@)[b].stack_rank == out@[b].stack_rank);
    }
    out
}

/// Stacking moves layers but loses and adds none.
pub proof fn lemma_stacked_same_layers(out: Seq<LayerSnapshotView>, input: Seq<LayerSnapshotView>, x: LayerSnapshotView)
    requires
        stacked_by_rank(out, input),
    ensures
        out.contains(x) <==> input.contains(x),
{
    let f = rank_is(x.stack_rank);
    assert(out.filter(f) == input.filter(f));
    if input.contains(x) {
        let k = choose|k: int| 0 <= k < input.len() && input[k] == x;
        input.lemma_filter_contains(f, k);
        out.lemma_filter_contains_rev(f, x);
    }
    if out.contains(x) {
        let k = choose|k: int| 0 <= k < out.len() && out[k] == x;
        out.lemma_filter_contains(f, k);
        input.lemma_filter_contains_rev(f, x);
    }
}

/// The views of a sequence of commands.
pub open spec fn command_views(cs: Seq<RenderCommand>) -> Seq<RenderCommandView> {
    cs.map_values(|c: RenderCommand| c@)
}

/// A replayed command as plain values.
pub struct ReplayStepView {
    pub command_index: int,
    pub kind: RenderCommandKind,
    pub source: Option<SurfaceId>,
    pub target: Seq<Rect>,
    pub alpha_bits: u32,
}

pub open spec fn step_views(steps: Seq<ReplayStep>) -> Seq<ReplayStepView> {
    steps.map_values(
        |s: ReplayStep|
            ReplayStepView {
                command_index: s.command_index as int,
                kind: s.kind,
                source: s.source,
                target: s.target.rects@,
                alpha_bits: s.alpha_bits,
            },
    )
}

/// The replay of the commands: one step per command, in order.
pub open spec fn replayed_steps(cs: Seq<RenderCommandView>) -> Seq<ReplayStepView> {
    Seq::new(
        cs.len(),
        |i: int|
            ReplayStepView {
                command_index: i,
                kind: cs[i].kind,
                source: cs[i].source,
                target: cs[i].target,
                alpha_bits: cs[i].alpha_bits,
            },
    )
}

/// The error the first command that does not belong to the frame brings:
/// another output, or a source that is invalid or has no layer.
pub open spec fn replay_failure(output: OutputId, surfaces: Seq<SurfaceId>, cs: Seq<RenderCommandView>) -> Option<
    EngineError,
>
    decreases cs.len(),
{
    if cs.len() == 0 {
        None
    } else {
        match replay_failure(output, surfaces, cs.drop_last()) {
            Some(e) => Some(e),
            None => if cs.last().output != output {
                Some(EngineError::InvalidOutput)
            } else {
                match cs.last().source {
                    Some(s) => if !s.spec_valid() || !surfaces.contains(s) {
                        Some(EngineError::InvalidSurface)
                    } else {
                        None
                    },
                    None => None,
                }
            },
        }
    }
}

pub proof fn lemma_replay_failure_prefix(output: OutputId, surfaces: Seq<SurfaceId>, cs: Seq<RenderCommandView>, k: int)
    requires
        0 <= k <= cs.len(),
        replay_failure(output, surfaces, cs.subrange(0, k)) is Some,
    ensures
        replay_failure(output, surfaces, cs) == replay_failure(output, surfaces, cs.subrange(0, k)),
    decreases cs.len() - k,
{
    if k < cs.len() {
        assert(cs.subrange(0, k + 1).drop_last() =~= cs.subrange(0, k));
        lemma_replay_failure_prefix(output, surfaces, cs, k + 1);
    } else {
        assert(cs.subrange(0, k) =~= cs);
    }
}

/// `f` is the frame planned from `input` for `request`: the layers stacked
/// by rank, one blit per drawn layer, and the damage of the drawn layers.
pub open spec fn planned_frame(
    engine: HeadlessEngine,
    f: FrameSnapshot,
    request: FramePlanRequest,
    input: Seq<LayerSnapshotView>,
) -> bool {
    &&& f.output == request.output
    &&& f.output_size == engine.output.size
    &&& f.output_scale == engine.output.scale
    &&& f.frame_serial == request.frame_serial
    &&& stacked_by_rank(layer_views(f.layers@), input)
    &&& surfaces_valid(layer_views(f.layers@))
    &&& command_views(f.commands@) == planned_commands(layer_views(f.layers@), request.output)
    &&& f.damage.rects@ == planned_damage(layer_views(f.layers@))
}

/// `r` replays every command of `f`, in order.
pub open spec fn replayed_frame(r: ReplayReport, f: FrameSnapshot) -> bool {
    &&& r.output == f.output
    &&& r.output_size == f.output_size
    &&& r.output_scale == f.output_scale
    &&& r.frame_serial == f.frame_serial
    &&& step_views(r.steps@) == replayed_steps(command_views(f.commands@))
    &&& r.damage.rects@ == f.damage.rects@
}

/// A planned frame draws only its own valid layers on its own output, so
/// replaying it finds nothing out of place.
pub proof fn lemma_planned_commands_replay(
    output: OutputId,
    surfaces: Seq<SurfaceId>,
    ls: Seq<LayerSnapshotView>,
)
    requires
        surfaces_valid(ls),
        forall|i: int| 0 <= i < ls.len() ==> surfaces.contains(#[trigger] ls[i].surface),
    ensures
        replay_failure(output, surfaces, planned_commands(ls, output)) is None,
    decreases ls.len(),
{
    if ls.len() > 0 {
        let rest = ls.drop_last();
        assert forall|i: int| 0 <= i < rest.len() implies surfaces.contains(#[trigger] rest[i].surface) by {
            assert(rest[i] == ls[i]);
        }
        lemma_planned_commands_replay(output, surfaces, rest);
        assert(ls[ls.len() - 1] == ls.last());
        let cs = planned_commands(rest, output);
        if layer_drawn(ls.last()) {
            assert(cs.push(command_for(ls.last(), output)).drop_last() =~= cs);
        }
    }
}

/// Whether a layer is drawn at all: visible, not empty, and backed by a buffer.
fn should_render(layer: &LayerSnapshot) -> (render: bool)
    ensures
        render == layer_renders(layer@),
{
    layer.opacity_bits > 0 && layer.opacity_bits <= 0x7f80_0000 && !layer.geometry.is_empty() && match layer.source {
        BufferSource::Absent => false,
        _ => true,
    }
}

/// Whether one of the layers shows `surface`.
fn frame_has_surface(layers: &Vec<LayerSnapshot>, surface: SurfaceId) -> (known: bool)
    ensures
        known == crate::engine::layer_surfaces(layer_views(layers@)).contains(surface),
{
    let ghost surfaces = crate::engine::layer_surfaces(layer_views(layers@));
    match crate::engine::find_last_layer(layers, surface) {
        Some(k) => {
            assert(surfaces[k as int] == surface);
            true
        },
        None => false,
    }
}

/// What planning a frame of `layers` for `request` gives: the planned
/// frame when the output is the engine's and every layer names a valid
/// surface, else `InvalidOutput`, then `InvalidSurface`.
pub open spec fn plan_frame_outcome(
    engine: HeadlessEngine,
    request: FramePlanRequest,
    layers: Seq<LayerSnapshotView>,
    frame: Result<FrameSnapshot, EngineError>,
) -> bool {
    match frame {
        Ok(f) => {
            &&& engine.spec_output_ok(request.output)
            &&& surfaces_valid(layers)
            &&& f.output == request.output
            &&& f.output_size == engine.output.size
            &&& f.output_scale == engine.output.scale
            &&& f.frame_serial == request.frame_serial
            &&& planned_frame(engine, f, request, layers)
        },
        Err(e) => if !engine.spec_output_ok(request.output) {
            e == EngineError::InvalidOutput
        } else {
            e == EngineError::InvalidSurface && !surfaces_valid(layers)
        },
    }
}

/// What replaying `frame` gives: its steps when it matches the engine's
/// output and every command draws one of its valid layers, else the first
/// failure.
pub open spec fn replay_frame_outcome(
    engine: HeadlessEngine,
    frame: FrameSnapshot,
    report: Result<ReplayReport, EngineError>,
) -> bool {
    match report {
        Ok(r) => {
            &&& engine.spec_output_ok(frame.output)
            &&& frame.output_size == engine.output.size
            &&& frame.output_scale == engine.output.scale
            &&& replay_failure(
                frame.output,
                crate::engine::layer_surfaces(layer_views(frame.layers@)),
                command_views(frame.commands@),
            ) is None
            &&& replayed_frame(r, frame)
        },
        Err(e) => if !engine.spec_output_ok(frame.output) {
            e == EngineError::InvalidOutput
        } else if frame.output_size != engine.output.size || frame.output_scale != engine.output.scale {
            e == EngineError::InvalidFrame
        } else {
            replay_failure(
                frame.output,
                crate::engine::layer_surfaces(layer_views(frame.layers@)),
                command_views(frame.commands@),
            ) == Some(e)
        },
    }
}

impl HeadlessEngine {
    /// Whether `output` is this engine's (valid) output.
    pub open spec fn spec_output_ok(&self, output: OutputId) -> bool {
        output.spec_valid() && output == self.output.id
    }

    fn validate_output(&self, output: OutputId) -> (ok: bool)
        ensures
            ok == self.spec_output_ok(output),
    {
        output.is_valid() && output.raw == self.output.id.raw
    }

    /// Plans a frame: the layers stacked by rank, then one blit per drawn
    /// layer with its damage. `InvalidOutput` for another output,
    /// `InvalidSurface` when a layer names an invalid surface.
    pub fn plan_frame(&self, request: FramePlanRequest, layers: Vec<LayerSnapshot>) -> (frame: Result<
        FrameSnapshot,
        EngineError,
    >)
        ensures
            plan_frame_outcome(*self, request, layer_views(layers@), frame),
    {
        if !self.validate_output(request.output) {
            return Err(EngineError::InvalidOutput);
        }
        let sorted = stack_by_rank(&layers);
        let ghost ls = layer_views(sorted@);
        let mut commands: Vec<RenderCommand> = Vec::new();
        let mut damage = Region::empty();
        let mut i: usize = 0;
        while i < sorted.len()
            invariant
                i <= sorted@.len(),
                ls == layer_views(sorted@),
                stacked_by_rank(ls, layer_views(layers@)),
                self.spec_output_ok(request.output),
                surfaces_valid(ls.subrange(0, i as int)),
                command_views(commands@) == planned_commands(ls.subrange(0, i as int), request.output),
                damage.rects@ == planned_damage(ls.subrange(0, i as int)),
            decreases sorted@.len() - i,
        {
            let layer = &sorted[i];
            let ghost x = ls[i as int];
            assert(ls.subrange(0, i + 1).drop_last() =~= ls.subrange(0, i as int));
            assert(ls.subrange(0, i + 1).last() == x);
            if !layer.surface.is_valid() {
                proof {
                    assert(ls.contains(x));
                    lemma_stacked_same_layers(ls, layer_views(layers@), x);
                    let k = choose|k: int| 0 <= k < layers@.len() && layer_views(layers@)[k] == x;
                    assert(!layer_views(layers@)[k].surface.spec_valid());
                }
                return Err(EngineError::InvalidSurface);
            }
            if should_render(layer) {
                let target_rect = match layer.crop {
                    Some(c) => c,
                    None => layer.geometry,
                };
                if !target_rect.is_empty() {
                    damage.extend(&layer.damage);
                    let clip = match layer.crop {
                        Some(c) => Some(Region::single(c)),
                        None => None,
                    };
                    let command = RenderCommand {
                        kind: RenderCommandKind::Blit,
                        source: Some(layer.surface),
                        output: request.output,
                        target: Region::single(target_rect),
                        clip,
                        alpha_bits: layer.opacity_bits,
                    };
                    assert(command@ == command_for(x, request.output));
                    commands.push(command);
                    assert(command_views(commands@) =~= planned_commands(ls.subrange(0, i as int), request.output).push(
                        command_for(x, request.output),
                    ));
                }
            }
            assert(surfaces_valid(ls.subrange(0, i + 1))) by {
                assert forall|k: int| 0 <= k < i + 1 implies (#[trigger] ls.subrange(0, i + 1)[k]).surface.spec_valid() by {
                    if k < i {
                        assert(ls.subrange(0, i + 1)[k] == ls.subrange(0, i as int)[k]);
                    }
                }
            }
            i = i + 1;
        }
        assert(ls.subrange(0, ls.len() as int) =~= ls);
        proof {
            assert(surfaces_valid(ls));
            assert forall|k: int| 0 <= k < layer_views(layers@).len() implies (#[trigger] layer_views(layers@)[k]).surface.spec_valid() by {
                let x = layer_views(layers@)[k];
                assert(layer_views(layers@).contains(x));
                lemma_stacked_same_layers(ls, layer_views(layers@), x);
                let j = choose|j: int| 0 <= j < ls.len() && ls[j] == x;
                assert(ls[j].surface.spec_valid());
            }
        }
        Ok(FrameSnapshot {
            output: request.output,
            output_size: self.output.size,
            output_scale: self.output.scale,
            frame_serial: request.frame_serial,
            layers: sorted,
            commands,
            damage,
        })
    }

    /// Replays a planned frame, one step per command. `InvalidOutput` when
    /// the frame or a command is for another output, `InvalidFrame` when the
    /// output's size or scale differ, `InvalidSurface` when a command draws
    /// a surface that is invalid or not among the frame's layers.
    #[verifier::rlimit(30)]
    pub fn replay_frame(&self, frame: &FrameSnapshot) -> (report: Result<ReplayReport, EngineError>)
        ensures
            replay_frame_outcome(*self, *frame, report),
    {
        if !self.validate_output(frame.output) {
            return Err(EngineError::InvalidOutput);
        }
        if frame.output_size != self.output.size || frame.output_scale != self.output.scale {
            return Err(EngineError::InvalidFrame);
        }
        let ghost surfaces = crate::engine::layer_surfaces(layer_views(frame.layers@));
        let ghost cs = command_views(frame.commands@);
        let mut steps: Vec<ReplayStep> = Vec::new();
        let mut i: usize = 0;
        while i < frame.commands.len()
            invariant
                i <= frame.commands@.len(),
                self.spec_output_ok(frame.output),
                frame.output_size == self.output.size,
                frame.output_scale == self.output.scale,
                surfaces == crate::engine::layer_surfaces(layer_views(frame.layers@)),
                cs == command_views(frame.commands@),
                replay_failure(frame.output, surfaces, cs.subrange(0, i as int)) is None,
                step_views(steps@) == replayed_steps(cs.subrange(0, i as int)),
                steps@.len() == i,
            decreases frame.commands@.len() - i,
        {
            let command = &frame.commands[i];
            assert(cs.subrange(0, i + 1).drop_last() =~= cs.subrange(0, i as int));
            assert(cs.subrange(0, i + 1).last() == command@);
            if command.output.raw != frame.output.raw {
                proof {
                    lemma_replay_failure_prefix(frame.output, surfaces, cs, i + 1);
                }
                return Err(EngineError::InvalidOutput);
            }
            match command.source {
                Some(source) => {
                    if !source.is_valid() || !frame_has_surface(&frame.layers, source) {
                        proof {
                            lemma_replay_failure_prefix(frame.output, surfaces, cs, i + 1);
                        }
                        return Err(EngineError::InvalidSurface);
                    }
                },
                None => {},
            }
            let ghost old_steps = steps@;
            steps.push(
                ReplayStep {
                    command_index: i,
                    kind: command.kind,
                    source: command.source,
                    target: command.target.copied(),
                    alpha_bits: command.alpha_bits,
                },
            );
            assert forall|k: int| 0 <= k < i + 1 implies #[trigger] step_views(steps@)[k] == replayed_steps(
                cs.subrange(0, i + 1),
            )[k] by {
                if k < i {
                    assert(steps@[k] == old_steps[k]);
                    assert(step_views(old_steps)[k] == replayed_steps(cs.subrange(0, i as int))[k]);
                    assert(cs.subrange(0, i + 1)[k] == cs.subrange(0, i as int)[k]);
                } else {
                    assert(cs.subrange(0, i + 1)[k] == command@);
                }
            }
            assert(step_views(steps@) =~= replayed_steps(cs.subrange(0, i + 1)));
            i = i + 1;
        }
        assert(cs.subrange(0, cs.len() as int) =~= cs);
        Ok(ReplayReport {
            output: frame.output,
            output_size: frame.output_size,
            output_scale: frame.output_scale,
            frame_serial: frame.frame_serial,
            steps,
            damage: frame.damage.copied(),
        })
    }
}

/// A renderer back end: the output it drives, and the planning and replay
/// of frames for it.
pub trait EngineBackend {
    fn output(&self) -> HeadlessOutput;

    fn plan_frame(&self, request: FramePlanRequest, layers: Vec<LayerSnapshot>) -> Result<FrameSnapshot, EngineError>;

    fn replay_frame(&self, frame: &FrameSnapshot) -> Result<ReplayReport, EngineError>;
}

impl EngineBackend for HeadlessEngine {
    fn output(&self) -> (output: HeadlessOutput)
        ensures
            output == self.output,
    {
        HeadlessEngine::output(self)
    }

    fn plan_frame(&self, request: FramePlanRequest, layers: Vec<LayerSnapshot>) -> (frame: Result<
        FrameSnapshot,
        EngineError,
    >)
        ensures
            plan_frame_outcome(*self, request, layer_views(layers@), frame),
    {
        HeadlessEngine::plan_frame(self, request, layers)
    }

    fn replay_frame(&self, frame: &FrameSnapshot) -> (report: Result<ReplayReport, EngineError>)
        ensures
            replay_frame_outcome(*self, *frame, report),
    {
        HeadlessEngine::replay_frame(self, frame)
    }
}

} // verus!

//! What the geometric checks and projections of the engine mean, stated
//! edge by edge over the integers: an accepted window-manager placement lies
//! wholly inside the output, a projected rectangle is the part of the
//! rectangle that lies on the output, and a cropped layer is drawn into its
//! crop.

use vstd::prelude::*;

use crate::engine::{HeadlessEngine, LayoutTransaction};
use crate::frame_plan::{FramePlanRequest, FrameSnapshot, planned_commands, planned_frame};
use crate::output::{OutputLogicalGeometry, spec_project_rect};
use crate::protocol::{BufferSource, LayerSnapshotView, OutputId, Rect, SurfaceId, layer_views};
use crate::scene::{live_wm_transaction_error, spec_rect_is_within};

verus! {

/// The larger of two integers.
pub open spec fn max_int(a: int, b: int) -> int {
    if a >= b { a } else { b }
}

/// The smaller of two integers.
pub open spec fn min_int(a: int, b: int) -> int {
    if a <= b { a } else { b }
}

/// A placement is within the output bounds exactly when each of its four
/// edges is: its left and top edges at or after the output's, its right and
/// bottom edges at or before the output's (and every edge representable).
pub proof fn law_within_bounds_means_all_four_edges(bounds: Rect, geometry: Rect)
    ensures
        spec_rect_is_within(bounds, geometry) ==> {
            &&& geometry.x >= bounds.x
            &&& geometry.y >= bounds.y
            &&& geometry.x + geometry.width <= bounds.x + bounds.width
            &&& geometry.y + geometry.height <= bounds.y + bounds.height
        },
        ({
            &&& bounds.x + bounds.width <= i32::MAX
            &&& bounds.y + bounds.height <= i32::MAX
            &&& geometry.x + geometry.width <= i32::MAX
            &&& geometry.y + geometry.height <= i32::MAX
            &&& bounds.x + bounds.width >= i32::MIN
            &&& bounds.y + bounds.height >= i32::MIN
            &&& geometry.x + geometry.width >= i32::MIN
            &&& geometry.y + geometry.height >= i32::MIN
            &&& geometry.x >= bounds.x
            &&& geometry.y >= bounds.y
            &&& geometry.x + geometry.width <= bounds.x + bounds.width
            &&& geometry.y + geometry.height <= bounds.y + bounds.height
        }) ==> spec_rect_is_within(bounds, geometry),
{
}

/// A live window-manager layout is accepted only if every placement names a
/// known surface, covers some area and lies wholly inside the output: no
/// edge of it beyond the output's.
pub proof fn law_accepted_live_layout_stays_inside_the_output(
    transaction: LayoutTransaction,
    known: Seq<SurfaceId>,
    bounds: Rect,
    i: int,
)
    requires
        live_wm_transaction_error(transaction, known, bounds) is None,
        0 <= i < transaction.render_positions@.len(),
    ensures
        ({
            let g = transaction.render_positions@[i].geometry;
            &&& known.contains(transaction.render_positions@[i].surface)
            &&& g.width > 0 && g.height > 0
            &&& g.x >= bounds.x
            &&& g.y >= bounds.y
            &&& g.x + g.width <= bounds.x + bounds.width
            &&& g.y + g.height <= bounds.y + bounds.height
        }),
{
    let p = transaction.render_positions@[i];
    law_within_bounds_means_all_four_edges(bounds, p.geometry);
}

/// A projected rectangle lies inside the output's own area: it starts at or
/// after the output's origin and ends at or before its far edges, and it
/// covers some area.
pub proof fn law_projection_stays_on_the_output(geometry: OutputLogicalGeometry, rect: Rect)
    ensures
        spec_project_rect(geometry, rect) matches Some(r) ==> {
            &&& 0 <= r.x
            &&& 0 <= r.y
            &&& r.width > 0
            &&& r.height > 0
            &&& r.x + r.width <= geometry.logical.width
            &&& r.y + r.height <= geometry.logical.height
        },
{
}

/// Where no edge sum leaves the range of `i32`, a projection is exactly the
/// intersection of the rectangle with the output's logical rectangle,
/// moved so that the output's corner is the origin; an empty intersection
/// projects to nothing.
pub proof fn law_projection_is_the_intersection(geometry: OutputLogicalGeometry, rect: Rect)
    requires
        i32::MIN <= rect.x + rect.width <= i32::MAX,
        i32::MIN <= rect.y + rect.height <= i32::MAX,
        i32::MIN <= geometry.logical.x + geometry.logical.width <= i32::MAX,
        i32::MIN <= geometry.logical.y + geometry.logical.height <= i32::MAX,
    ensures
        ({
            let l = geometry.logical;
            let left = max_int(rect.x as int, l.x as int);
            let top = max_int(rect.y as int, l.y as int);
            let right = min_int(rect.x + rect.width, l.x + l.width);
            let bottom = min_int(rect.y + rect.height, l.y + l.height);
            &&& (spec_project_rect(geometry, rect) is Some <==> left < right && top < bottom)
            &&& spec_project_rect(geometry, rect) matches Some(r) ==> {
                &&& r.x + l.x == left
                &&& r.y + l.y == top
                &&& r.x + l.x + r.width == right
                &&& r.y + l.y + r.height == bottom
            }
        }),
{
}

/// A layer drawn into a frame is drawn where its crop says, or over its
/// whole geometry when it has none; the command carries the layer's
/// surface and opacity, and is made only for a visible layer with a buffer.
pub open spec fn draws_layer(c: crate::frame_plan::RenderCommandView, l: LayerSnapshotView, output: OutputId) -> bool {
    &&& c.source == Some(l.surface)
    &&& c.output == output
    &&& c.alpha_bits == l.opacity_bits
    &&& l.source != BufferSource::Absent
    &&& l.geometry.width > 0 && l.geometry.height > 0
    &&& match l.crop {
        Some(crop) => {
            &&& c.target == seq![crop]
            &&& c.clip == Some(seq![crop])
            &&& crop.width > 0 && crop.height > 0
        },
        None => {
            &&& c.target == seq![l.geometry]
            &&& c.clip == None::<Seq<Rect>>
        },
    }
}

/// Every planned command draws one of the layers: a cropped layer into
/// exactly its crop, an uncropped one into its geometry.
pub proof fn lemma_planned_commands_draw_layers(ls: Seq<LayerSnapshotView>, output: OutputId)
    ensures
        forall|k: int|
            0 <= k < planned_commands(ls, output).len() ==> exists|i: int|
                0 <= i < ls.len() && draws_layer(#[trigger] planned_commands(ls, output)[k], ls[i], output),
    decreases ls.len(),
{
    if ls.len() > 0 {
        let rest = ls.drop_last();
        lemma_planned_commands_draw_layers(rest, output);
        let cs = planned_commands(ls, output);
        assert forall|k: int| 0 <= k < cs.len() implies exists|i: int|
            0 <= i < ls.len() && draws_layer(#[trigger] cs[k], ls[i], output) by {
            if k < planned_commands(rest, output).len() {
                assert(cs[k] == planned_commands(rest, output)[k]);
                let i = choose|i: int| 0 <= i < rest.len() && draws_layer(planned_commands(rest, output)[k], rest[i], output);
                assert(ls[i] == rest[i]);
            } else {
                assert(draws_layer(cs[k], ls[ls.len() - 1], output));
            }
        }
    }
}

/// A planned frame draws each of its layers where the layer says: every
/// command of the frame draws one of the frame's layers, a cropped layer
/// into exactly its crop and an uncropped one into its geometry.
pub proof fn law_cropped_layers_draw_into_their_crop(
    engine: HeadlessEngine,
    frame: FrameSnapshot,
    request: FramePlanRequest,
    input: Seq<LayerSnapshotView>,
    k: int,
)
    requires
        planned_frame(engine, frame, request, input),
        0 <= k < frame.commands@.len(),
    ensures
        exists|i: int|
            0 <= i < frame.layers@.len() && draws_layer(frame.commands@[k]@, #[trigger] frame.layers@[i]@, request.output),
{
    let ls = layer_views(frame.layers@);
    lemma_planned_commands_draw_layers(ls, request.output);
    assert(crate::frame_plan::command_views(frame.commands@)[k] == frame.commands@[k]@);
    let i = choose|i: int| 0 <= i < ls.len() && draws_layer(planned_commands(ls, request.output)[k], ls[i], request.output);
    assert(ls[i] == frame.layers@[i]@);
}

} // verus!

//! The recursive renderer: from an object and a depth budget to the
//! sequence of canvas commands it draws.
//!
//! Every render function returns exactly the commands the original
//! surface would have received, and its contract ties that sequence to a
//! rendering relation: a specification-level description of every
//! command sequence the node may produce, with the randomized query
//! picks left existential and everything else pinned. Termination is
//! enforced twice, as the document model demands: the depth budget
//! strictly decreases across every query step, and the transform gate
//! stops containers whose cumulative scale has become invisible.

use crate::canvas::CanvasOp;
use crate::canvas::Palette;
use crate::canvas::Rgb;
use crate::canvas::draw_free;
use crate::canvas::lemma_scope_well_nested;
use crate::canvas::lemma_stack_free_well_nested;
use crate::canvas::lemma_well_nested_concat;
use crate::canvas::save_excess;
use crate::canvas::well_nested;
use crate::gate::SCALE_ONE_MICRO;
use crate::gate::combine_scale;
use crate::gate::should_continue;
use crate::gate::spec_combine_scale;
use crate::gate::spec_should_continue;
use crate::objects::Circle;
use crate::objects::Color;
use crate::objects::Grid;
use crate::objects::Icon;
use crate::objects::IconPoint;
use crate::objects::Line;
use crate::objects::Object;
use crate::objects::Placement;
use crate::objects::Point;
use crate::objects::Ring;
use crate::objects::Sequence;
use crate::objects::Sun;
use crate::random::RandomSource;
use crate::structure::Choose;
use crate::structure::CurrentItem;
use crate::structure::ImageContext;
use crate::structure::Query;
use crate::structure::Structure;
use crate::structure::pick_valid;
use crate::structure::spec_lookup;
use crate::structure::valid_picks;
use vstd::prelude::*;

verus! {

/// A full turn in milli-degrees.
pub const FULL_TURN_MILLIDEGREES: i64 = 360_000;

/// The quarter-turn orientation correction of sun segments.
pub const QUARTER_TURN_MILLIDEGREES: i64 = 90_000;

/// The palette color a selector names.
pub open spec fn color_rgb(c: Color, palette: Palette) -> Rgb {
    match c {
        Color::Background => palette.background_color,
        Color::Fill => palette.fill_color,
    }
}

/// The paint-configuration command for a selector under a palette.
pub open spec fn set_color_op(c: Color, palette: Palette) -> CanvasOp {
    let rgb = color_rgb(c, palette);
    CanvasOp::SetSourceRgb { red: rgb.red, green: rgb.green, blue: rgb.blue }
}

/// A control point, defaulting to the vertex's own endpoint when the
/// path gives none.
pub open spec fn spec_control(c: Option<Point>, x: i64, y: i64) -> Point {
    match c {
        Some(q) => q,
        None => Point { x, y },
    }
}

/// The command for one non-initial path vertex: a straight segment
/// without control points, else a cubic segment with absent controls
/// defaulting to the endpoint.
pub open spec fn segment_op(p: IconPoint) -> CanvasOp {
    if p.sa is None && p.sb is None {
        CanvasOp::LineTo { x: p.x, y: p.y }
    } else {
        let a = spec_control(p.sa, p.x, p.y);
        let b = spec_control(p.sb, p.x, p.y);
        CanvasOp::CurveTo { x1: a.x, y1: a.y, x2: b.x, y2: b.y, x: p.x, y: p.y }
    }
}

/// The commands of a whole path: the first vertex moves, each later one
/// draws its segment. An empty path issues nothing.
pub open spec fn path_ops(path: Seq<IconPoint>) -> Seq<CanvasOp> {
    if path.len() == 0 {
        Seq::empty()
    } else {
        seq![CanvasOp::MoveTo { x: path[0].x, y: path[0].y }] + Seq::new(
            (path.len() - 1) as nat,
            |j: int| segment_op(path[j + 1]),
        )
    }
}

/// Everything a stroked path leaf draws.
pub open spec fn line_ops(l: Line, palette: Palette) -> Seq<CanvasOp> {
    seq![set_color_op(l.color, palette)] + path_ops(l.path@) + seq![CanvasOp::Stroke]
}

/// Everything a filled path leaf draws.
pub open spec fn icon_ops(ic: Icon, palette: Palette) -> Seq<CanvasOp> {
    seq![set_color_op(ic.color, palette)] + path_ops(ic.path@) + seq![
        CanvasOp::ClosePath,
        CanvasOp::Fill,
    ]
}

/// Everything a ring draws: a stroked full-circle arc.
pub open spec fn ring_ops(r: Ring, palette: Palette) -> Seq<CanvasOp> {
    seq![
        set_color_op(r.color, palette),
        CanvasOp::Arc {
            x: 0,
            y: 0,
            radius: r.radius,
            start_millidegrees: 0,
            end_millidegrees: FULL_TURN_MILLIDEGREES,
        },
        CanvasOp::Stroke,
    ]
}

/// Everything a circle draws: a filled full-circle arc.
pub open spec fn circle_ops(c: Circle, palette: Palette) -> Seq<CanvasOp> {
    seq![
        set_color_op(c.color, palette),
        CanvasOp::Arc {
            x: 0,
            y: 0,
            radius: c.radius,
            start_millidegrees: 0,
            end_millidegrees: FULL_TURN_MILLIDEGREES,
        },
        CanvasOp::Fill,
    ]
}

/// The shared opening of every container: push the transform stack,
/// move to the container's center, turn by its angle.
pub open spec fn frame_ops(x: i64, y: i64, angle: i64) -> Seq<CanvasOp> {
    seq![CanvasOp::Save, CanvasOp::Translate { x, y }, CanvasOp::Rotate { millidegrees: angle }]
}

/// The scale command of a container's scale field.
pub open spec fn scale_op(scale: i64) -> CanvasOp {
    CanvasOp::Scale { scale_milli: scale }
}

/// Truncating halving, as the hosts' coordinate arithmetic rounds
/// toward zero.
pub open spec fn div2_trunc(n: int) -> int {
    if n >= 0 {
        n / 2
    } else {
        -((-n) / 2)
    }
}

/// An arbitrary-precision value clamped into the i64 range.
pub open spec fn clamp_i64(n: int) -> int {
    if n > i64::MAX {
        i64::MAX as int
    } else if n < i64::MIN {
        i64::MIN as int
    } else {
        n
    }
}

/// The center coordinate of cell `index` along one axis of a grid whose
/// `count` cells are `size` apart and whose bounding box is centered on
/// the origin: index * size - (size * count / 2 - size / 2).
pub open spec fn spec_cell_center(count: int, size: int, index: int) -> int {
    clamp_i64(div2_trunc((2 * index - (count - 1)) * size))
}

/// How many cells a grid renders: none unless both counts are positive.
pub open spec fn spec_cell_count(g: Grid) -> int {
    if g.rows < 1 || g.columns < 1 {
        0
    } else {
        g.columns * g.rows
    }
}

/// How many segments a sun renders.
pub open spec fn spec_segment_count(s: Sun) -> int {
    if s.segments < 1 {
        0
    } else {
        s.segments as int
    }
}

/// The rotation of sun segment `index` out of `segments`: its share of
/// a full turn, in milli-degrees, rounded down.
pub open spec fn spec_segment_angle(index: int, segments: int) -> int
    recommends
        0 <= index < segments,
{
    (index * (FULL_TURN_MILLIDEGREES as int)) / segments
}

/// The fixed opening of sun segment `k`: rotate into the segment,
/// push out by the radius, turn a quarter turn, scale.
pub open spec fn sun_segment_pre(s: Sun, k: int) -> Seq<CanvasOp> {
    seq![
        CanvasOp::Save,
        CanvasOp::Rotate { millidegrees: spec_segment_angle(k, s.segments as int) as i64 },
        CanvasOp::Translate { x: s.radius, y: 0 },
        CanvasOp::Rotate { millidegrees: QUARTER_TURN_MILLIDEGREES },
        scale_op(s.scale),
    ]
}

/// The fixed opening of grid cell `k`: push the stack, move to the cell
/// center, scale.
pub open spec fn grid_cell_pre(g: Grid, k: int) -> Seq<CanvasOp> {
    let rows = g.rows as int;
    let col = k / rows;
    let row = k % rows;
    seq![
        CanvasOp::Save,
        CanvasOp::Translate {
            x: spec_cell_center(g.columns as int, g.width as int, col) as i64,
            y: spec_cell_center(rows, g.height as int, row) as i64,
        },
        scale_op(g.scale),
    ]
}

/// The commands of one grid cell, given its resolution and the render
/// of what it resolved to: nothing on a miss, else the cell frame
/// around the body.
pub open spec fn grid_cell_seg(g: Grid, pick: Option<int>, body: Seq<CanvasOp>, k: int) -> Seq<
    CanvasOp,
> {
    match pick {
        None => Seq::empty(),
        Some(_) => grid_cell_pre(g, k) + body + seq![CanvasOp::Restore],
    }
}

/// The commands of all cells of a grid, in column-major order, given
/// the picks and the rendered bodies.
pub open spec fn grid_cells_ops(
    g: Grid,
    picks: Seq<Option<int>>,
    bodies: Seq<Seq<CanvasOp>>,
) -> Seq<CanvasOp> {
    Seq::new(picks.len(), |k: int| grid_cell_seg(g, picks[k], bodies[k], k)).flatten()
}

/// The commands of one sun segment: the fixed opening always runs, the
/// body only on a hit.
pub open spec fn sun_segment_seg(s: Sun, pick: Option<int>, body: Seq<CanvasOp>, k: int) -> Seq<
    CanvasOp,
> {
    match pick {
        None => sun_segment_pre(s, k) + seq![CanvasOp::Restore],
        Some(_) => sun_segment_pre(s, k) + body + seq![CanvasOp::Restore],
    }
}

/// The commands of all segments of a sun, in segment order, given the
/// picks and the rendered bodies.
pub open spec fn sun_segments_ops(
    s: Sun,
    picks: Seq<Option<int>>,
    bodies: Seq<Seq<CanvasOp>>,
) -> Seq<CanvasOp> {
    Seq::new(picks.len(), |k: int| sun_segment_seg(s, picks[k], bodies[k], k)).flatten()
}

/// What a resolver's pick owes the body rendered from it: a hit is a
/// registry index whose object the body renders at the inner depth and
/// scale; a miss owes nothing.
pub open spec fn pick_body_ok(
    ctx: ImageContext,
    pick: Option<int>,
    inner_depth: int,
    inner_scale: u64,
    body: Seq<CanvasOp>,
) -> bool {
    match pick {
        None => true,
        Some(p) => 0 <= p < ctx.objects@.len() && render_rel(
            ctx,
            ctx.objects@[p].1,
            inner_depth,
            inner_scale,
            body,
        ),
    }
}

/// Every hit among the picks names an entry of the registry.
pub open spec fn picks_in_range(ctx: ImageContext, picks: Seq<Option<int>>) -> bool {
    forall|k: int|
        0 <= k < picks.len() && picks[k] is Some ==> 0 <= #[trigger] (picks[k]->0)
            < ctx.objects@.len()
}

/// Every command sequence a node may produce at the given depth and
/// cumulative scale: nothing at a spent budget, the exact leaf commands,
/// and for containers the frame around gate-checked, query-resolved
/// children, with the random picks existential.
pub open spec fn render_rel(
    ctx: ImageContext,
    node: Object,
    depth: int,
    scale: u64,
    ops: Seq<CanvasOp>,
) -> bool
    decreases depth, node,
{
    if depth <= 0 {
        ops == Seq::<CanvasOp>::empty()
    } else {
        match node {
            Object::Line(l) => ops == line_ops(l, ctx.palette),
            Object::Icon(ic) => ops == icon_ops(ic, ctx.palette),
            Object::Ring(r) => ops == ring_ops(r, ctx.palette),
            Object::Circle(c) => ops == circle_ops(c, ctx.palette),
            Object::Sequence(s) => {
                let pre = frame_ops(s.x, s.y, s.angle) + seq![scale_op(s.scale)];
                let inner = spec_combine_scale(scale, s.scale);
                if !spec_should_continue(inner) {
                    ops == pre + seq![CanvasOp::Restore]
                } else {
                    exists|segs: Seq<Seq<CanvasOp>>|
                        #![trigger segs.len()]
                        {
                            &&& segs.len() == s.objects@.len()
                            &&& forall|j: int|
                                0 <= j < s.objects@.len() ==> render_rel(
                                    ctx,
                                    s.objects@[j],
                                    depth,
                                    inner,
                                    #[trigger] segs[j],
                                )
                            &&& ops == pre + segs.flatten() + seq![CanvasOp::Restore]
                        }
                }
            },
            Object::Grid(g) => {
                let pre = frame_ops(g.x, g.y, g.angle);
                if !spec_should_continue(scale) {
                    ops == pre + seq![CanvasOp::Restore]
                } else {
                    let inner = spec_combine_scale(scale, g.scale);
                    exists|picks: Seq<Option<int>>, bodies: Seq<Seq<CanvasOp>>|
                        #![trigger grid_cells_ops(g, picks, bodies)]
                        {
                            &&& picks.len() == spec_cell_count(g)
                            &&& bodies.len() == spec_cell_count(g)
                            &&& valid_picks(ctx, g.query, picks)
                            &&& picks_in_range(ctx, picks)
                            &&& forall|k: int|
                                0 <= k < spec_cell_count(g) && picks[k] is Some ==> render_rel(
                                    ctx,
                                    ctx.objects@[picks[k]->0].1,
                                    depth - 1,
                                    inner,
                                    #[trigger] bodies[k],
                                )
                            &&& ops == pre + grid_cells_ops(g, picks, bodies) + seq![
                                CanvasOp::Restore,
                            ]
                        }
                }
            },
            Object::Sun(s) => {
                let pre = frame_ops(s.x, s.y, s.angle);
                if !spec_should_continue(scale) {
                    ops == pre + seq![CanvasOp::Restore]
                } else {
                    let inner = spec_combine_scale(scale, s.scale);
                    exists|picks: Seq<Option<int>>, bodies: Seq<Seq<CanvasOp>>|
                        #![trigger sun_segments_ops(s, picks, bodies)]
                        {
                            &&& picks.len() == spec_segment_count(s)
                            &&& bodies.len() == spec_segment_count(s)
                            &&& valid_picks(ctx, s.query, picks)
                            &&& picks_in_range(ctx, picks)
                            &&& forall|k: int|
                                0 <= k < spec_segment_count(s) && picks[k] is Some ==> render_rel(
                                    ctx,
                                    ctx.objects@[picks[k]->0].1,
                                    depth - 1,
                                    inner,
                                    #[trigger] bodies[k],
                                )
                            &&& ops == pre + sun_segments_ops(s, picks, bodies) + seq![
                                CanvasOp::Restore,
                            ]
                        }
                }
            },
            Object::Placement(p) => {
                let pre = frame_ops(p.x, p.y, p.angle) + seq![scale_op(p.scale)];
                let inner = spec_combine_scale(scale, p.scale);
                if !spec_should_continue(inner) {
                    ops == pre + seq![CanvasOp::Restore]
                } else {
                    exists|pick: Option<int>|
                        #[trigger] pick_valid(ctx, p.query, pick) && match pick {
                            None => ops == pre + seq![CanvasOp::Restore],
                            Some(i) => {
                                &&& 0 <= i < ctx.objects@.len()
                                &&& exists|body: Seq<CanvasOp>|
                                    render_rel(ctx, ctx.objects@[i].1, depth - 1, inner, body)
                                        && ops == #[trigger] (pre + body) + seq![
                                        CanvasOp::Restore,
                                    ]
                            },
                        }
                }
            },
        }
    }
}

/// A sequence's command sequences, as `render_rel` has them.
pub open spec fn sequence_rel(
    ctx: ImageContext,
    s: Sequence,
    depth: int,
    scale: u64,
    ops: Seq<CanvasOp>,
) -> bool {
    render_rel(ctx, Object::Sequence(s), depth, scale, ops)
}

/// A grid's command sequences, as `render_rel` has them.
pub open spec fn grid_rel(
    ctx: ImageContext,
    g: Grid,
    depth: int,
    scale: u64,
    ops: Seq<CanvasOp>,
) -> bool {
    render_rel(ctx, Object::Grid(g), depth, scale, ops)
}

/// A sun's command sequences, as `render_rel` has them.
pub open spec fn sun_rel(
    ctx: ImageContext,
    s: Sun,
    depth: int,
    scale: u64,
    ops: Seq<CanvasOp>,
) -> bool {
    render_rel(ctx, Object::Sun(s), depth, scale, ops)
}

/// A placement's command sequences, as `render_rel` has them.
pub open spec fn placement_rel(
    ctx: ImageContext,
    p: Placement,
    depth: int,
    scale: u64,
    ops: Seq<CanvasOp>,
) -> bool {
    render_rel(ctx, Object::Placement(p), depth, scale, ops)
}

/// Everything a whole document render may produce: nothing when the
/// budget is spent on arrival, else one resolution of the start query
/// and the render of its result at the full budget and neutral scale.
pub open spec fn structure_renders(
    ctx: ImageContext,
    start: Query,
    depth: int,
    ops: Seq<CanvasOp>,
) -> bool {
    if depth < 1 {
        ops == Seq::<CanvasOp>::empty()
    } else {
        exists|pick: Option<int>|
            #[trigger] pick_valid(ctx, start, pick) && match pick {
                None => ops == Seq::<CanvasOp>::empty(),
                Some(p) => {
                    &&& 0 <= p < ctx.objects@.len()
                    &&& render_rel(ctx, ctx.objects@[p].1, depth, SCALE_ONE_MICRO, ops)
                },
            }
    }
}

/// The paint-configuration command for a selector under a palette.
pub fn configure_color(color: &Color, palette: &Palette) -> (op: CanvasOp)
    ensures
        op == set_color_op(*color, *palette),
{
    match color {
        Color::Background => CanvasOp::SetSourceRgb {
            red: palette.background_color.red,
            green: palette.background_color.green,
            blue: palette.background_color.blue,
        },
        Color::Fill => CanvasOp::SetSourceRgb {
            red: palette.fill_color.red,
            green: palette.fill_color.green,
            blue: palette.fill_color.blue,
        },
    }
}

/// A control point, defaulting to the vertex's own endpoint.
fn control_point(c: &Option<Point>, x: i64, y: i64) -> (r: Point)
    ensures
        r == spec_control(*c, x, y),
{
    match c {
        Some(q) => Point { x: q.x, y: q.y },
        None => Point { x, y },
    }
}

/// The command for one non-initial path vertex.
fn path_segment(p: &IconPoint) -> (op: CanvasOp)
    ensures
        op == segment_op(*p),
{
    if p.sa.is_none() && p.sb.is_none() {
        CanvasOp::LineTo { x: p.x, y: p.y }
    } else {
        let a = control_point(&p.sa, p.x, p.y);
        let b = control_point(&p.sb, p.x, p.y);
        CanvasOp::CurveTo { x1: a.x, y1: a.y, x2: b.x, y2: b.y, x: p.x, y: p.y }
    }
}

/// Append the commands of a whole path.
fn emit_path(ops: &mut Vec<CanvasOp>, path: &Vec<IconPoint>)
    ensures
        final(ops)@ == old(ops)@ + path_ops(path@),
{
    let ghost base = ops@;
    let n = path.len();
    if n == 0 {
        proof {
            assert(base + path_ops(path@) =~= base);
        }
        return ;
    }
    for i in 0..n
        invariant
            n == path@.len(),
            n >= 1,
            ops@ == base + path_ops(path@.take(i as int)),
    {
        let p = &path[i];
        if i == 0 {
            ops.push(CanvasOp::MoveTo { x: p.x, y: p.y });
            proof {
                assert(path_ops(path@.take(1)) =~= seq![
                    CanvasOp::MoveTo { x: path@[0].x, y: path@[0].y },
                ]);
                assert(ops@ =~= base + path_ops(path@.take(1)));
            }
        } else {
            ops.push(path_segment(p));
            proof {
                assert(path_ops(path@.take(i + 1)) =~= path_ops(path@.take(i as int)).push(
                    segment_op(path@[i as int]),
                ));
                assert(ops@ =~= base + path_ops(path@.take(i + 1)));
            }
        }
    }
    proof {
        assert(path@.take(n as int) =~= path@);
    }
}

/// A grid render's collected picks and rendered cell bodies witness
/// the grid arm of the rendering relation.
proof fn lemma_grid_cells_witness(
    ctx: ImageContext,
    g: Grid,
    depth: int,
    scale: u64,
    picks: Seq<Option<int>>,
    bodies: Seq<Seq<CanvasOp>>,
    ops: Seq<CanvasOp>,
)
    requires
        depth > 0,
        spec_should_continue(scale),
        picks.len() == spec_cell_count(g),
        bodies.len() == spec_cell_count(g),
        valid_picks(ctx, g.query, picks),
        forall|k: int|
            0 <= k < picks.len() ==> #[trigger] pick_body_ok(
                ctx,
                picks[k],
                depth - 1,
                spec_combine_scale(scale, g.scale),
                bodies[k],
            ),
        ops == frame_ops(g.x, g.y, g.angle) + grid_cells_ops(g, picks, bodies) + seq![
            CanvasOp::Restore,
        ],
    ensures
        grid_rel(ctx, g, depth, scale, ops),
{
    let inner = spec_combine_scale(scale, g.scale);
    assert forall|k: int|
        0 <= k < picks.len() && picks[k] is Some implies 0 <= #[trigger] (picks[k]->0)
        < ctx.objects@.len() by {
        assert(pick_body_ok(ctx, picks[k], depth - 1, inner, bodies[k]));
    }
    assert forall|k: int|
        0 <= k < spec_cell_count(g) && picks[k] is Some implies render_rel(
        ctx,
        ctx.objects@[picks[k]->0].1,
        depth - 1,
        inner,
        #[trigger] bodies[k],
    ) by {
        assert(pick_body_ok(ctx, picks[k], depth - 1, inner, bodies[k]));
    }
    assert(exists|picks2: Seq<Option<int>>, bodies2: Seq<Seq<CanvasOp>>|
        #![trigger grid_cells_ops(g, picks2, bodies2)]
        {
            &&& picks2.len() == spec_cell_count(g)
            &&& bodies2.len() == spec_cell_count(g)
            &&& valid_picks(ctx, g.query, picks2)
            &&& picks_in_range(ctx, picks2)
            &&& forall|k: int|
                0 <= k < spec_cell_count(g) && picks2[k] is Some ==> render_rel(
                    ctx,
                    ctx.objects@[picks2[k]->0].1,
                    depth - 1,
                    inner,
                    #[trigger] bodies2[k],
                )
            &&& ops == frame_ops(g.x, g.y, g.angle) + grid_cells_ops(g, picks2, bodies2) + seq![
                CanvasOp::Restore,
            ]
        });
}

/// A sun render's collected picks and rendered segment bodies witness
/// the sun arm of the rendering relation.
proof fn lemma_sun_segments_witness(
    ctx: ImageContext,
    s: Sun,
    depth: int,
    scale: u64,
    picks: Seq<Option<int>>,
    bodies: Seq<Seq<CanvasOp>>,
    ops: Seq<CanvasOp>,
)
    requires
        depth > 0,
        spec_should_continue(scale),
        picks.len() == spec_segment_count(s),
        bodies.len() == spec_segment_count(s),
        valid_picks(ctx, s.query, picks),
        forall|k: int|
            0 <= k < picks.len() ==> #[trigger] pick_body_ok(
                ctx,
                picks[k],
                depth - 1,
                spec_combine_scale(scale, s.scale),
                bodies[k],
            ),
        ops == frame_ops(s.x, s.y, s.angle) + sun_segments_ops(s, picks, bodies) + seq![
            CanvasOp::Restore,
        ],
    ensures
        sun_rel(ctx, s, depth, scale, ops),
{
    let inner = spec_combine_scale(scale, s.scale);
    assert forall|k: int|
        0 <= k < picks.len() && picks[k] is Some implies 0 <= #[trigger] (picks[k]->0)
        < ctx.objects@.len() by {
        assert(pick_body_ok(ctx, picks[k], depth - 1, inner, bodies[k]));
    }
    assert forall|k: int|
        0 <= k < spec_segment_count(s) && picks[k] is Some implies render_rel(
        ctx,
        ctx.objects@[picks[k]->0].1,
        depth - 1,
        inner,
        #[trigger] bodies[k],
    ) by {
        assert(pick_body_ok(ctx, picks[k], depth - 1, inner, bodies[k]));
    }
    assert(exists|picks2: Seq<Option<int>>, bodies2: Seq<Seq<CanvasOp>>|
        #![trigger sun_segments_ops(s, picks2, bodies2)]
        {
            &&& picks2.len() == spec_segment_count(s)
            &&& bodies2.len() == spec_segment_count(s)
            &&& valid_picks(ctx, s.query, picks2)
            &&& picks_in_range(ctx, picks2)
            &&& forall|k: int|
                0 <= k < spec_segment_count(s) && picks2[k] is Some ==> render_rel(
                    ctx,
                    ctx.objects@[picks2[k]->0].1,
                    depth - 1,
                    inner,
                    #[trigger] bodies2[k],
                )
            &&& ops == frame_ops(s.x, s.y, s.angle) + sun_segments_ops(s, picks2, bodies2) + seq![
                CanvasOp::Restore,
            ]
        });
}

impl Object {
    /// Dispatch on the variant: leaves draw, containers recurse. A
    /// spent depth budget draws nothing at all.
    pub fn render<R: RandomSource>(
        &self,
        ctx: &ImageContext,
        rng: &mut R,
        depth: i32,
        scale_micro: u64,
    ) -> (ops: Vec<CanvasOp>)
        requires
            ctx.wf(),
        ensures
            render_rel(*ctx, *self, depth as int, scale_micro, ops@),
        decreases depth, 1int, *self,
    {
        if depth <= 0 {
            let ops: Vec<CanvasOp> = Vec::new();
            proof {
                assert(ops@ =~= Seq::<CanvasOp>::empty());
            }
            return ops;
        }
        match self {
            Object::Line(l) => l.render(ctx),
            Object::Icon(ic) => ic.render(ctx),
            Object::Ring(r) => r.render(ctx),
            Object::Circle(c) => c.render(ctx),
            Object::Sequence(s) => s.render(ctx, rng, depth, scale_micro),
            Object::Grid(g) => g.render(ctx, rng, depth, scale_micro),
            Object::Sun(s) => s.render(ctx, rng, depth, scale_micro),
            Object::Placement(p) => p.render(ctx, rng, depth, scale_micro),
        }
    }
}

impl Sequence {
    /// Frame, scale, gate; then every child in order at the same depth;
    /// restore on every exit path.
    pub fn render<R: RandomSource>(
        &self,
        ctx: &ImageContext,
        rng: &mut R,
        depth: i32,
        scale_micro: u64,
    ) -> (ops: Vec<CanvasOp>)
        requires
            ctx.wf(),
        ensures
            sequence_rel(*ctx, *self, depth as int, scale_micro, ops@),
        decreases depth, 1int, *self,
    {
        let mut ops: Vec<CanvasOp> = Vec::new();
        if depth <= 0 {
            proof {
                assert(ops@ =~= Seq::<CanvasOp>::empty());
            }
            return ops;
        }
        ops.push(CanvasOp::Save);
        ops.push(CanvasOp::Translate { x: self.x, y: self.y });
        ops.push(CanvasOp::Rotate { millidegrees: self.angle });
        ops.push(scale_command(self.scale));
        let inner = combine_scale(scale_micro, self.scale);
        let ghost pre = frame_ops(self.x, self.y, self.angle) + seq![scale_op(self.scale)];
        proof {
            assert(ops@ =~= pre);
        }
        if !should_continue(inner) {
            ops.push(CanvasOp::Restore);
            proof {
                assert(ops@ =~= pre + seq![CanvasOp::Restore]);
            }
            return ops;
        }
        let ghost mut segs: Seq<Seq<CanvasOp>> = Seq::empty();
        proof {
            assert(ops@ =~= pre + segs.flatten());
        }
        let n = self.objects.len();
        for i in 0..n
            invariant
                ctx.wf(),
                n == self.objects@.len(),
                depth >= 1,
                inner == spec_combine_scale(scale_micro, self.scale),
                spec_should_continue(inner),
                segs.len() == i,
                forall|j: int|
                    0 <= j < i ==> render_rel(
                        *ctx,
                        self.objects@[j],
                        depth as int,
                        inner,
                        #[trigger] segs[j],
                    ),
                ops@ == pre + segs.flatten(),
                pre == frame_ops(self.x, self.y, self.angle) + seq![scale_op(self.scale)],
        {
            let mut sub = (&self.objects[i]).render(ctx, rng, depth, inner);
            let ghost subview = sub@;
            ops.append(&mut sub);
            proof {
                segs.lemma_flatten_push(subview);
                segs = segs.push(subview);
                assert(ops@ =~= pre + segs.flatten());
            }
        }
        ops.push(CanvasOp::Restore);
        proof {
            assert(segs.len() == self.objects@.len());
            assert(ops@ =~= pre + segs.flatten() + seq![CanvasOp::Restore]);
        }
        ops
    }
}

/// The scale command of a container's scale field.
fn scale_command(scale: i64) -> (op: CanvasOp)
    ensures
        op == scale_op(scale),
{
    CanvasOp::Scale { scale_milli: scale }
}

/// A resolver's cache against the first pick of a pass: in step after
/// the first resolution, never while nothing has been resolved.
spec fn cache_matches(item: CurrentItem, p: Option<int>) -> bool {
    match item {
        CurrentItem::Uninitalized => false,
        CurrentItem::Found(i) => p == Some(i as int),
        CurrentItem::Nothing => p == None::<int>,
    }
}

/// The center coordinate of cell `index` along one grid axis.
fn cell_center(count: i32, size: i64, index: i32) -> (r: i64)
    requires
        1 <= count,
        0 <= index < count,
    ensures
        r as int == spec_cell_center(count as int, size as int, index as int),
{
    let t: i128 = 2 * (index as i128) - (count as i128 - 1);
    proof {
        assert((-(0x1_0000_0000_0000_0000_0000_0000i128) <= t * (size as i128) <= 0x1_0000_0000_0000_0000_0000_0000i128)) by (nonlinear_arith)
            requires
                -(0x2_0000_0000i128) <= t <= 0x2_0000_0000i128,
                -(0x8000_0000_0000_0000i128) <= (size as i128) <= 0x8000_0000_0000_0000i128,
        ;
    }
    let prod: i128 = t * (size as i128);
    let half: i128 = if prod >= 0 {
        ((prod as u128) / 2) as i128
    } else {
        -(((-prod) as u128 / 2) as i128)
    };
    if half > i64::MAX as i128 {
        i64::MAX
    } else if half < i64::MIN as i128 {
        i64::MIN
    } else {
        half as i64
    }
}

/// The rotation of a sun segment, in milli-degrees.
fn segment_rotation(index: i32, segments: i32) -> (r: i64)
    requires
        0 <= index < segments,
    ensures
        r as int == spec_segment_angle(index as int, segments as int),
{
    proof {
        assert((index as int) * (FULL_TURN_MILLIDEGREES as int) <= 0x8000_0000 * 360_000)
            by (nonlinear_arith)
            requires
                0 <= index <= 0x8000_0000,
        ;
    }
    let product: u64 = (index as u64) * (FULL_TURN_MILLIDEGREES as u64);
    let r: u64 = product / (segments as u64);
    r as i64
}

impl Grid {
    /// Frame, gate; then per cell, in column-major order: resolve the
    /// query, and on a hit place the object at the cell center one
    /// depth step down; restore on every exit path.
    pub fn render<R: RandomSource>(
        &self,
        ctx: &ImageContext,
        rng: &mut R,
        depth: i32,
        scale_micro: u64,
    ) -> (ops: Vec<CanvasOp>)
        requires
            ctx.wf(),
        ensures
            grid_rel(*ctx, *self, depth as int, scale_micro, ops@),
        decreases depth, 0int, *self,
    {
        let mut ops: Vec<CanvasOp> = Vec::new();
        if depth <= 0 {
            proof {
                assert(ops@ =~= Seq::<CanvasOp>::empty());
            }
            return ops;
        }
        ops.push(CanvasOp::Save);
        ops.push(CanvasOp::Translate { x: self.x, y: self.y });
        ops.push(CanvasOp::Rotate { millidegrees: self.angle });
        let ghost pre = frame_ops(self.x, self.y, self.angle);
        proof {
            assert(ops@ =~= pre);
        }
        if !should_continue(scale_micro) {
            ops.push(CanvasOp::Restore);
            proof {
                assert(ops@ =~= pre + seq![CanvasOp::Restore]);
            }
            return ops;
        }
        let inner = combine_scale(scale_micro, self.scale);
        let mut qr = ctx.get_element_from_query(&self.query, depth);
        let ghost mut picks: Seq<Option<int>> = Seq::empty();
        let ghost mut bodies: Seq<Seq<CanvasOp>> = Seq::empty();
        let ghost mut segs: Seq<Seq<CanvasOp>> = Seq::empty();
        proof {
            assert(ops@ =~= pre + segs.flatten());
        }
        let mut x: i32 = 0;
        while x < self.columns
            invariant
                ctx.wf(),
                depth >= 1,
                inner == spec_combine_scale(scale_micro, self.scale),
                spec_should_continue(scale_micro),
                0 <= x,
                self.columns >= 1 ==> x <= self.columns,
                self.columns < 1 ==> x == 0,
                qr.query == &self.query,
                !qr.is_dead_end,
                qr.cache_valid(*ctx),
                picks.len() == segs.len(),
                picks.len() == bodies.len(),
                picks.len() == if self.rows < 1 {
                    0int
                } else {
                    x * self.rows
                },
                forall|k: int|
                    0 <= k < picks.len() ==> pick_valid(*ctx, self.query, #[trigger] picks[k]),
                forall|k: int|
                    0 <= k < picks.len() ==> #[trigger] segs[k] == grid_cell_seg(
                        *self,
                        picks[k],
                        bodies[k],
                        k,
                    ),
                forall|k: int|
                    0 <= k < picks.len() ==> #[trigger] pick_body_ok(
                        *ctx,
                        picks[k],
                        depth - 1,
                        inner,
                        bodies[k],
                    ),
                self.query.spec_choose() == Choose::Once && picks.len() == 0
                    ==> qr.current_item == CurrentItem::Uninitalized,
                self.query.spec_choose() == Choose::Once && picks.len() > 0 ==> cache_matches(
                    qr.current_item,
                    picks[0],
                ),
                self.query.spec_choose() == Choose::Once ==> forall|k: int|
                    0 <= k < picks.len() ==> #[trigger] picks[k] == picks[0],
                ops@ == pre + segs.flatten(),
                pre == frame_ops(self.x, self.y, self.angle),
            decreases self.columns - x,
        {
            let mut y: i32 = 0;
            while y < self.rows
                invariant
                    ctx.wf(),
                    depth >= 1,
                    inner == spec_combine_scale(scale_micro, self.scale),
                    spec_should_continue(scale_micro),
                    0 <= x < self.columns,
                    0 <= y,
                    self.rows >= 1 ==> y <= self.rows,
                    self.rows < 1 ==> y == 0,
                    qr.query == &self.query,
                    !qr.is_dead_end,
                    qr.cache_valid(*ctx),
                    picks.len() == segs.len(),
                    picks.len() == bodies.len(),
                    picks.len() == if self.rows < 1 {
                        0int
                    } else {
                        x * self.rows + y
                    },
                    forall|k: int|
                        0 <= k < picks.len() ==> pick_valid(*ctx, self.query, #[trigger] picks[k]),
                    forall|k: int|
                        0 <= k < picks.len() ==> #[trigger] segs[k] == grid_cell_seg(
                            *self,
                            picks[k],
                            bodies[k],
                            k,
                        ),
                    forall|k: int|
                        0 <= k < picks.len() ==> #[trigger] pick_body_ok(
                            *ctx,
                            picks[k],
                            depth - 1,
                            inner,
                            bodies[k],
                        ),
                    self.query.spec_choose() == Choose::Once && picks.len() == 0
                        ==> qr.current_item == CurrentItem::Uninitalized,
                    self.query.spec_choose() == Choose::Once && picks.len() > 0 ==> cache_matches(
                        qr.current_item,
                        picks[0],
                    ),
                    self.query.spec_choose() == Choose::Once ==> forall|k: int|
                        0 <= k < picks.len() ==> #[trigger] picks[k] == picks[0],
                    ops@ == pre + segs.flatten(),
                    pre == frame_ops(self.x, self.y, self.angle),
                decreases self.rows - y,
            {
                let r = qr.next(ctx, rng);
                let ghost pk = crate::structure::opt_index(r);
                let ghost k = picks.len() as int;
                proof {
                    vstd::arithmetic::div_mod::lemma_fundamental_div_mod_converse(
                        k,
                        self.rows as int,
                        x as int,
                        y as int,
                    );
                }
                match r {
                    None => {
                        proof {
                            segs.lemma_flatten_push(Seq::empty());
                            picks = picks.push(pk);
                            bodies = bodies.push(Seq::empty());
                            segs = segs.push(Seq::empty());
                            assert(ops@ =~= pre + segs.flatten());
                        }
                    },
                    Some(idx) => {
                        ops.push(CanvasOp::Save);
                        let tx = cell_center(self.columns, self.width, x);
                        let ty = cell_center(self.rows, self.height, y);
                        ops.push(CanvasOp::Translate { x: tx, y: ty });
                        ops.push(scale_command(self.scale));
                        let mut body = (&ctx.objects[idx].1).render(ctx, rng, depth - 1, inner);
                        let ghost bodyview = body@;
                        ops.append(&mut body);
                        ops.push(CanvasOp::Restore);
                        proof {
                            let seg = grid_cell_seg(*self, pk, bodyview, k);
                            assert(grid_cell_pre(*self, k) =~= seq![
                                CanvasOp::Save,
                                CanvasOp::Translate { x: tx, y: ty },
                                scale_op(self.scale),
                            ]);
                            assert(render_rel(
                                *ctx,
                                ctx.objects@[idx as int].1,
                                depth - 1,
                                inner,
                                bodyview,
                            ));
                            assert(pick_body_ok(*ctx, pk, depth - 1, inner, bodyview));
                            segs.lemma_flatten_push(seg);
                            picks = picks.push(pk);
                            bodies = bodies.push(bodyview);
                            segs = segs.push(seg);
                            assert(ops@ =~= pre + segs.flatten());
                        }
                    },
                }
                y = y + 1;
            }
            proof {
                let xi = x as int;
                let ri = self.rows as int;
                assert((xi + 1) * ri == xi * ri + ri) by (nonlinear_arith);
            }
            x = x + 1;
        }
        ops.push(CanvasOp::Restore);
        proof {
            if self.rows >= 1 && self.columns >= 1 {
                assert(picks.len() == (self.columns as int) * (self.rows as int));
            }
            assert(picks.len() == spec_cell_count(*self));
            assert(valid_picks(*ctx, self.query, picks));
            assert(Seq::new(picks.len(), |k: int| grid_cell_seg(*self, picks[k], bodies[k], k))
                =~= segs);
            assert(ops@ =~= pre + grid_cells_ops(*self, picks, bodies) + seq![CanvasOp::Restore]);
            lemma_grid_cells_witness(
                *ctx,
                *self,
                depth as int,
                scale_micro,
                picks,
                bodies,
                ops@,
            );
        }
        ops
    }
}

impl Sun {
    /// Frame, gate; then per segment: rotate into the segment, push out
    /// by the radius, turn a quarter turn, scale, resolve the query, on
    /// a hit render the object one depth step down; restore everywhere.
    pub fn render<R: RandomSource>(
        &self,
        ctx: &ImageContext,
        rng: &mut R,
        depth: i32,
        scale_micro: u64,
    ) -> (ops: Vec<CanvasOp>)
        requires
            ctx.wf(),
        ensures
            sun_rel(*ctx, *self, depth as int, scale_micro, ops@),
        decreases depth, 0int, *self,
    {
        let mut ops: Vec<CanvasOp> = Vec::new();
        if depth <= 0 {
            proof {
                assert(ops@ =~= Seq::<CanvasOp>::empty());
            }
            return ops;
        }
        ops.push(CanvasOp::Save);
        ops.push(CanvasOp::Translate { x: self.x, y: self.y });
        ops.push(CanvasOp::Rotate { millidegrees: self.angle });
        let ghost pre = frame_ops(self.x, self.y, self.angle);
        proof {
            assert(ops@ =~= pre);
        }
        if !should_continue(scale_micro) {
            ops.push(CanvasOp::Restore);
            proof {
                assert(ops@ =~= pre + seq![CanvasOp::Restore]);
            }
            return ops;
        }
        let inner = combine_scale(scale_micro, self.scale);
        let mut qr = ctx.get_element_from_query(&self.query, depth);
        let ghost mut picks: Seq<Option<int>> = Seq::empty();
        let ghost mut bodies: Seq<Seq<CanvasOp>> = Seq::empty();
        let ghost mut segs: Seq<Seq<CanvasOp>> = Seq::empty();
        proof {
            assert(ops@ =~= pre + segs.flatten());
        }
        let mut k: i32 = 0;
        while k < self.segments
            invariant
                ctx.wf(),
                depth >= 1,
                inner == spec_combine_scale(scale_micro, self.scale),
                spec_should_continue(scale_micro),
                0 <= k,
                self.segments >= 1 ==> k <= self.segments,
                self.segments < 1 ==> k == 0,
                qr.query == &self.query,
                !qr.is_dead_end,
                qr.cache_valid(*ctx),
                picks.len() == segs.len(),
                picks.len() == bodies.len(),
                picks.len() == k as int,
                forall|j: int|
                    0 <= j < picks.len() ==> pick_valid(*ctx, self.query, #[trigger] picks[j]),
                forall|j: int|
                    0 <= j < picks.len() ==> #[trigger] segs[j] == sun_segment_seg(
                        *self,
                        picks[j],
                        bodies[j],
                        j,
                    ),
                forall|j: int|
                    0 <= j < picks.len() ==> #[trigger] pick_body_ok(
                        *ctx,
                        picks[j],
                        depth - 1,
                        inner,
                        bodies[j],
                    ),
                self.query.spec_choose() == Choose::Once && picks.len() == 0
                    ==> qr.current_item == CurrentItem::Uninitalized,
                self.query.spec_choose() == Choose::Once && picks.len() > 0 ==> cache_matches(
                    qr.current_item,
                    picks[0],
                ),
                self.query.spec_choose() == Choose::Once ==> forall|j: int|
                    0 <= j < picks.len() ==> #[trigger] picks[j] == picks[0],
                ops@ == pre + segs.flatten(),
                pre == frame_ops(self.x, self.y, self.angle),
            decreases self.segments - k,
        {
            ops.push(CanvasOp::Save);
            ops.push(CanvasOp::Rotate { millidegrees: segment_rotation(k, self.segments) });
            ops.push(CanvasOp::Translate { x: self.radius, y: 0 });
            ops.push(CanvasOp::Rotate { millidegrees: QUARTER_TURN_MILLIDEGREES });
            ops.push(scale_command(self.scale));
            let r = qr.next(ctx, rng);
            let ghost pk = crate::structure::opt_index(r);
            let ghost kk = picks.len() as int;
            match r {
                None => {
                    ops.push(CanvasOp::Restore);
                    proof {
                        let seg = sun_segment_seg(*self, pk, Seq::empty(), kk);
                        assert(seg =~= sun_segment_pre(*self, kk) + seq![CanvasOp::Restore]);
                        segs.lemma_flatten_push(seg);
                        picks = picks.push(pk);
                        bodies = bodies.push(Seq::empty());
                        segs = segs.push(seg);
                        assert(ops@ =~= pre + segs.flatten());
                    }
                },
                Some(idx) => {
                    let mut body = (&ctx.objects[idx].1).render(ctx, rng, depth - 1, inner);
                    let ghost bodyview = body@;
                    ops.append(&mut body);
                    ops.push(CanvasOp::Restore);
                    proof {
                        let seg = sun_segment_seg(*self, pk, bodyview, kk);
                        assert(render_rel(
                            *ctx,
                            ctx.objects@[idx as int].1,
                            depth - 1,
                            inner,
                            bodyview,
                        ));
                        assert(pick_body_ok(*ctx, pk, depth - 1, inner, bodyview));
                        segs.lemma_flatten_push(seg);
                        picks = picks.push(pk);
                        bodies = bodies.push(bodyview);
                        segs = segs.push(seg);
                        assert(ops@ =~= pre + segs.flatten());
                    }
                },
            }
            k = k + 1;
        }
        ops.push(CanvasOp::Restore);
        proof {
            assert(picks.len() == spec_segment_count(*self));
            assert(valid_picks(*ctx, self.query, picks));
            assert(Seq::new(picks.len(), |j: int| sun_segment_seg(*self, picks[j], bodies[j], j))
                =~= segs);
            assert(ops@ =~= pre + sun_segments_ops(*self, picks, bodies) + seq![
                CanvasOp::Restore,
            ]);
            lemma_sun_segments_witness(
                *ctx,
                *self,
                depth as int,
                scale_micro,
                picks,
                bodies,
                ops@,
            );
        }
        ops
    }
}

impl Placement {
    /// Frame, scale, gate; resolve the query exactly once; on a hit
    /// render the object one depth step down; restore on every path.
    pub fn render<R: RandomSource>(
        &self,
        ctx: &ImageContext,
        rng: &mut R,
        depth: i32,
        scale_micro: u64,
    ) -> (ops: Vec<CanvasOp>)
        requires
            ctx.wf(),
        ensures
            placement_rel(*ctx, *self, depth as int, scale_micro, ops@),
        decreases depth, 0int, *self,
    {
        let mut ops: Vec<CanvasOp> = Vec::new();
        if depth <= 0 {
            proof {
                assert(ops@ =~= Seq::<CanvasOp>::empty());
            }
            return ops;
        }
        ops.push(CanvasOp::Save);
        ops.push(CanvasOp::Translate { x: self.x, y: self.y });
        ops.push(CanvasOp::Rotate { millidegrees: self.angle });
        ops.push(scale_command(self.scale));
        let ghost pre = frame_ops(self.x, self.y, self.angle) + seq![scale_op(self.scale)];
        proof {
            assert(ops@ =~= pre);
        }
        let inner = combine_scale(scale_micro, self.scale);
        if !should_continue(inner) {
            ops.push(CanvasOp::Restore);
            proof {
                assert(ops@ =~= pre + seq![CanvasOp::Restore]);
            }
            return ops;
        }
        let mut qr = ctx.get_element_from_query(&self.query, depth);
        let r = qr.next(ctx, rng);
        let ghost pk = crate::structure::opt_index(r);
        match r {
            None => {
                ops.push(CanvasOp::Restore);
                proof {
                    assert(ops@ =~= pre + seq![CanvasOp::Restore]);
                }
            },
            Some(idx) => {
                let mut body = (&ctx.objects[idx].1).render(ctx, rng, depth - 1, inner);
                let ghost bodyview = body@;
                ops.append(&mut body);
                ops.push(CanvasOp::Restore);
                proof {
                    assert(ops@ =~= pre + bodyview + seq![CanvasOp::Restore]);
                }
            },
        }
        ops
    }
}

impl Structure {
    /// One whole render pass: resolve the start query at the full
    /// budget and render what it finds at neutral scale. Past the
    /// budget, or on a missed start, nothing at all is drawn.
    pub fn render<R: RandomSource>(&self, ctx: &ImageContext, rng: &mut R, depth: i32) -> (ops:
        Vec<CanvasOp>)
        requires
            ctx.wf(),
        ensures
            structure_renders(*ctx, self.start, depth as int, ops@),
    {
        let mut qr = ctx.get_element_from_query(&self.start, depth);
        let r = qr.next(ctx, rng);
        match r {
            None => {
                let ops: Vec<CanvasOp> = Vec::new();
                proof {
                    assert(ops@ =~= Seq::<CanvasOp>::empty());
                }
                ops
            },
            Some(idx) => (&ctx.objects[idx].1).render(ctx, rng, depth, SCALE_ONE_MICRO),
        }
    }
}

impl Line {
    /// The stroked path: configure the color, walk the vertices, stroke
    /// with the width the host configured.
    pub fn render(&self, ctx: &ImageContext) -> (ops: Vec<CanvasOp>)
        ensures
            ops@ == line_ops(*self, ctx.palette),
    {
        let mut ops: Vec<CanvasOp> = Vec::new();
        ops.push(configure_color(&self.color, ctx.palette()));
        emit_path(&mut ops, &self.path);
        ops.push(CanvasOp::Stroke);
        proof {
            assert(ops@ =~= line_ops(*self, ctx.palette));
        }
        ops
    }
}

impl Icon {
    /// The filled path: configure the color, walk the vertices, close
    /// and fill.
    pub fn render(&self, ctx: &ImageContext) -> (ops: Vec<CanvasOp>)
        ensures
            ops@ == icon_ops(*self, ctx.palette),
    {
        let mut ops: Vec<CanvasOp> = Vec::new();
        ops.push(configure_color(&self.color, ctx.palette()));
        emit_path(&mut ops, &self.path);
        ops.push(CanvasOp::ClosePath);
        ops.push(CanvasOp::Fill);
        proof {
            assert(ops@ =~= icon_ops(*self, ctx.palette));
        }
        ops
    }
}

impl Ring {
    /// The stroked full circle.
    pub fn render(&self, ctx: &ImageContext) -> (ops: Vec<CanvasOp>)
        ensures
            ops@ == ring_ops(*self, ctx.palette),
    {
        let mut ops: Vec<CanvasOp> = Vec::new();
        ops.push(configure_color(&self.color, ctx.palette()));
        ops.push(
            CanvasOp::Arc {
                x: 0,
                y: 0,
                radius: self.radius,
                start_millidegrees: 0,
                end_millidegrees: FULL_TURN_MILLIDEGREES,
            },
        );
        ops.push(CanvasOp::Stroke);
        proof {
            assert(ops@ =~= ring_ops(*self, ctx.palette));
        }
        ops
    }
}

impl Circle {
    /// The filled full circle.
    pub fn render(&self, ctx: &ImageContext) -> (ops: Vec<CanvasOp>)
        ensures
            ops@ == circle_ops(*self, ctx.palette),
    {
        let mut ops: Vec<CanvasOp> = Vec::new();
        ops.push(configure_color(&self.color, ctx.palette()));
        ops.push(
            CanvasOp::Arc {
                x: 0,
                y: 0,
                radius: self.radius,
                start_millidegrees: 0,
                end_millidegrees: FULL_TURN_MILLIDEGREES,
            },
        );
        ops.push(CanvasOp::Fill);
        proof {
            assert(ops@ =~= circle_ops(*self, ctx.palette));
        }
        ops
    }
}

/// Depth exhaustion: a node entered with a spent budget emits nothing
/// at all, so a render never exceeds its budget of nested query steps.
pub proof fn lemma_depth_exhausted(
    ctx: ImageContext,
    node: Object,
    depth: int,
    scale: u64,
    ops: Seq<CanvasOp>,
)
    requires
        render_rel(ctx, node, depth, scale, ops),
        depth <= 0,
    ensures
        ops == Seq::<CanvasOp>::empty(),
{
}

/// Missing reference is a no-op: a render whose start query names an
/// absent object issues no command at all.
pub proof fn lemma_missing_reference(
    ctx: ImageContext,
    start: Query,
    depth: int,
    ops: Seq<CanvasOp>,
)
    requires
        structure_renders(ctx, start, depth, ops),
        start is ByName,
        spec_lookup(ctx.objects@, start->by_name@) is None,
    ensures
        ops == Seq::<CanvasOp>::empty(),
{
    if depth >= 1 {
        let pick = choose|pick: Option<int>|
            #[trigger] pick_valid(ctx, start, pick) && match pick {
                None => ops == Seq::<CanvasOp>::empty(),
                Some(p) => {
                    &&& 0 <= p < ctx.objects@.len()
                    &&& render_rel(ctx, ctx.objects@[p].1, depth, SCALE_ONE_MICRO, ops)
                },
            };
        assert(pick == spec_lookup(ctx.objects@, start->by_name@));
    }
}

/// The cumulative scale a container's gate judges: a sequence or a
/// placement applies its own scale first, a grid or a sun applies its
/// scale only inside the cells or segments.
pub open spec fn gate_scale(node: Object, scale: u64) -> u64 {
    match node {
        Object::Sequence(s) => spec_combine_scale(scale, s.scale),
        Object::Placement(p) => spec_combine_scale(scale, p.scale),
        _ => scale,
    }
}

/// Scale cutoff: a container whose gate scale has fallen below the
/// visibility threshold draws nothing, whatever depth budget remains:
/// its commands move the transform stack and nothing else.
pub proof fn lemma_scale_cutoff(
    ctx: ImageContext,
    node: Object,
    depth: int,
    scale: u64,
    ops: Seq<CanvasOp>,
)
    requires
        render_rel(ctx, node, depth, scale, ops),
        node.is_container(),
        !spec_should_continue(gate_scale(node, scale)),
    ensures
        draw_free(ops),
{
    if depth <= 0 {
        assert(draw_free(ops));
    } else {
        match node {
            Object::Sequence(se) => {
                let pre = frame_ops(se.x, se.y, se.angle) + seq![scale_op(se.scale)];
                assert(ops == pre + seq![CanvasOp::Restore]);
                assert forall|i: int| 0 <= i < ops.len() implies !(#[trigger] ops[i]).is_draw() by {}
            },
            Object::Grid(g) => {
                let pre = frame_ops(g.x, g.y, g.angle);
                assert(ops == pre + seq![CanvasOp::Restore]);
                assert forall|i: int| 0 <= i < ops.len() implies !(#[trigger] ops[i]).is_draw() by {}
            },
            Object::Sun(su) => {
                let pre = frame_ops(su.x, su.y, su.angle);
                assert(ops == pre + seq![CanvasOp::Restore]);
                assert forall|i: int| 0 <= i < ops.len() implies !(#[trigger] ops[i]).is_draw() by {}
            },
            Object::Placement(pl) => {
                let pre = frame_ops(pl.x, pl.y, pl.angle) + seq![scale_op(pl.scale)];
                assert(ops == pre + seq![CanvasOp::Restore]);
                assert forall|i: int| 0 <= i < ops.len() implies !(#[trigger] ops[i]).is_draw() by {}
            },
            _ => {},
        }
    }
}

/// The empty command sequence is well nested.
proof fn lemma_empty_well_nested()
    ensures
        well_nested(Seq::<CanvasOp>::empty()),
{
    assert forall|i: int| 0 <= i <= 0 implies save_excess(
        #[trigger] Seq::<CanvasOp>::empty().take(i),
    ) >= 0 by {
        assert(Seq::<CanvasOp>::empty().take(i) =~= Seq::<CanvasOp>::empty());
    }
}

/// Path commands never touch the transform stack.
proof fn lemma_path_ops_stack_free(path: Seq<IconPoint>)
    ensures
        forall|i: int|
            0 <= i < path_ops(path).len() ==> !((#[trigger] path_ops(path)[i]) is Save) && !(
            path_ops(path)[i] is Restore),
{
    if path.len() > 0 {
        assert forall|i: int|
            0 <= i < path_ops(path).len() implies !((#[trigger] path_ops(path)[i]) is Save) && !(
        path_ops(path)[i] is Restore) by {
            if i > 0 {
                assert(path_ops(path)[i] == segment_op(path[i]));
            }
        }
    }
}

/// A flattened sequence of well-nested blocks is well nested.
proof fn lemma_flatten_well_nested(segs: Seq<Seq<CanvasOp>>)
    requires
        forall|j: int| 0 <= j < segs.len() ==> well_nested(#[trigger] segs[j]),
    ensures
        well_nested(segs.flatten()),
    decreases segs.len(),
{
    if segs.len() == 0 {
        assert(segs.flatten() =~= Seq::<CanvasOp>::empty());
        lemma_empty_well_nested();
    } else {
        lemma_flatten_well_nested(segs.drop_last());
        segs.drop_last().lemma_flatten_push(segs.last());
        assert(segs.drop_last().push(segs.last()) =~= segs);
        lemma_well_nested_concat(segs.drop_last().flatten(), segs.last());
    }
}

/// Scoped transform discipline: whatever a node renders leaves the
/// transform stack exactly as it found it — every exit path of every
/// container restores what it saved.
pub proof fn lemma_render_well_nested(
    ctx: ImageContext,
    node: Object,
    depth: int,
    scale: u64,
    ops: Seq<CanvasOp>,
)
    requires
        render_rel(ctx, node, depth, scale, ops),
    ensures
        well_nested(ops),
    decreases depth, 1int, node,
{
    if depth <= 0 {
        lemma_empty_well_nested();
    } else {
        match node {
            Object::Line(l) => {
                lemma_path_ops_stack_free(l.path@);
                lemma_stack_free_well_nested(line_ops(l, ctx.palette));
            },
            Object::Icon(ic) => {
                lemma_path_ops_stack_free(ic.path@);
                lemma_stack_free_well_nested(icon_ops(ic, ctx.palette));
            },
            Object::Ring(r) => {
                lemma_stack_free_well_nested(ring_ops(r, ctx.palette));
            },
            Object::Circle(c) => {
                lemma_stack_free_well_nested(circle_ops(c, ctx.palette));
            },
            Object::Sequence(se) => {
                let pre = frame_ops(se.x, se.y, se.angle) + seq![scale_op(se.scale)];
                let inner = spec_combine_scale(scale, se.scale);
                if !spec_should_continue(inner) {
                    lemma_empty_well_nested();
                    lemma_scope_well_nested(pre, Seq::empty());
                    assert(pre + Seq::<CanvasOp>::empty() + seq![CanvasOp::Restore] =~= ops);
                } else {
                    let segs = choose|segs: Seq<Seq<CanvasOp>>|
                        #![trigger segs.len()]
                        {
                            &&& segs.len() == se.objects@.len()
                            &&& forall|j: int|
                                0 <= j < se.objects@.len() ==> render_rel(
                                    ctx,
                                    se.objects@[j],
                                    depth,
                                    inner,
                                    #[trigger] segs[j],
                                )
                            &&& ops == pre + segs.flatten() + seq![CanvasOp::Restore]
                        };
                    assert forall|j: int| 0 <= j < segs.len() implies well_nested(
                        #[trigger] segs[j],
                    ) by {
                        lemma_render_well_nested(ctx, se.objects@[j], depth, inner, segs[j]);
                    }
                    lemma_flatten_well_nested(segs);
                    lemma_scope_well_nested(pre, segs.flatten());
                }
            },
            Object::Grid(g) => {
                let pre = frame_ops(g.x, g.y, g.angle);
                if !spec_should_continue(scale) {
                    lemma_empty_well_nested();
                    lemma_scope_well_nested(pre, Seq::empty());
                    assert(pre + Seq::<CanvasOp>::empty() + seq![CanvasOp::Restore] =~= ops);
                } else {
                    let inner = spec_combine_scale(scale, g.scale);
                    let (picks, bodies) = choose|
                        picks: Seq<Option<int>>,
                        bodies: Seq<Seq<CanvasOp>>,
                    |
                        #![trigger grid_cells_ops(g, picks, bodies)]
                        {
                            &&& picks.len() == spec_cell_count(g)
                            &&& bodies.len() == spec_cell_count(g)
                            &&& valid_picks(ctx, g.query, picks)
                            &&& picks_in_range(ctx, picks)
                            &&& forall|k: int|
                                0 <= k < spec_cell_count(g) && picks[k] is Some ==> render_rel(
                                    ctx,
                                    ctx.objects@[picks[k]->0].1,
                                    depth - 1,
                                    inner,
                                    #[trigger] bodies[k],
                                )
                            &&& ops == pre + grid_cells_ops(g, picks, bodies) + seq![
                                CanvasOp::Restore,
                            ]
                        };
                    let cells = Seq::new(
                        picks.len() as nat,
                        |k: int| grid_cell_seg(g, picks[k], bodies[k], k),
                    );
                    assert forall|k: int| 0 <= k < cells.len() implies well_nested(
                        #[trigger] cells[k],
                    ) by {
                        match picks[k] {
                            None => {
                                lemma_empty_well_nested();
                            },
                            Some(_) => {
                                lemma_render_well_nested(
                                    ctx,
                                    ctx.objects@[picks[k]->0].1,
                                    depth - 1,
                                    inner,
                                    bodies[k],
                                );
                                lemma_scope_well_nested(grid_cell_pre(g, k), bodies[k]);
                            },
                        }
                    }
                    lemma_flatten_well_nested(cells);
                    lemma_scope_well_nested(pre, cells.flatten());
                }
            },
            Object::Sun(su) => {
                let pre = frame_ops(su.x, su.y, su.angle);
                if !spec_should_continue(scale) {
                    lemma_empty_well_nested();
                    lemma_scope_well_nested(pre, Seq::empty());
                    assert(pre + Seq::<CanvasOp>::empty() + seq![CanvasOp::Restore] =~= ops);
                } else {
                    let inner = spec_combine_scale(scale, su.scale);
                    let (picks, bodies) = choose|
                        picks: Seq<Option<int>>,
                        bodies: Seq<Seq<CanvasOp>>,
                    |
                        #![trigger sun_segments_ops(su, picks, bodies)]
                        {
                            &&& picks.len() == spec_segment_count(su)
                            &&& bodies.len() == spec_segment_count(su)
                            &&& valid_picks(ctx, su.query, picks)
                            &&& picks_in_range(ctx, picks)
                            &&& forall|k: int|
                                0 <= k < spec_segment_count(su) && picks[k] is Some ==> render_rel(
                                    ctx,
                                    ctx.objects@[picks[k]->0].1,
                                    depth - 1,
                                    inner,
                                    #[trigger] bodies[k],
                                )
                            &&& ops == pre + sun_segments_ops(su, picks, bodies) + seq![
                                CanvasOp::Restore,
                            ]
                        };
                    let cells = Seq::new(
                        picks.len() as nat,
                        |k: int| sun_segment_seg(su, picks[k], bodies[k], k),
                    );
                    assert forall|k: int| 0 <= k < cells.len() implies well_nested(
                        #[trigger] cells[k],
                    ) by {
                        match picks[k] {
                            None => {
                                lemma_empty_well_nested();
                                lemma_scope_well_nested(sun_segment_pre(su, k), Seq::empty());
                                assert(sun_segment_pre(su, k) + Seq::<CanvasOp>::empty() + seq![
                                    CanvasOp::Restore,
                                ] =~= cells[k]);
                            },
                            Some(_) => {
                                lemma_render_well_nested(
                                    ctx,
                                    ctx.objects@[picks[k]->0].1,
                                    depth - 1,
                                    inner,
                                    bodies[k],
                                );
                                lemma_scope_well_nested(sun_segment_pre(su, k), bodies[k]);
                            },
                        }
                    }
                    lemma_flatten_well_nested(cells);
                    lemma_scope_well_nested(pre, cells.flatten());
                }
            },
            Object::Placement(pl) => {
                let pre = frame_ops(pl.x, pl.y, pl.angle) + seq![scale_op(pl.scale)];
                let inner = spec_combine_scale(scale, pl.scale);
                if !spec_should_continue(inner) {
                    lemma_empty_well_nested();
                    lemma_scope_well_nested(pre, Seq::empty());
                    assert(pre + Seq::<CanvasOp>::empty() + seq![CanvasOp::Restore] =~= ops);
                } else {
                    let pick = choose|pick: Option<int>|
                        #[trigger] pick_valid(ctx, pl.query, pick) && match pick {
                            None => ops == pre + seq![CanvasOp::Restore],
                            Some(i) => {
                                &&& 0 <= i < ctx.objects@.len()
                                &&& exists|body: Seq<CanvasOp>|
                                    render_rel(ctx, ctx.objects@[i].1, depth - 1, inner, body)
                                        && ops == #[trigger] (pre + body) + seq![
                                        CanvasOp::Restore,
                                    ]
                            },
                        };
                    match pick {
                        None => {
                            lemma_empty_well_nested();
                            lemma_scope_well_nested(pre, Seq::empty());
                            assert(pre + Seq::<CanvasOp>::empty() + seq![CanvasOp::Restore]
                                =~= ops);
                        },
                        Some(i) => {
                            let body = choose|body: Seq<CanvasOp>|
                                render_rel(ctx, ctx.objects@[i].1, depth - 1, inner, body) && ops
                                    == #[trigger] (pre + body) + seq![CanvasOp::Restore];
                            lemma_render_well_nested(ctx, ctx.objects@[i].1, depth - 1, inner, body);
                            lemma_scope_well_nested(pre, body);
                        },
                    }
                }
            },
        }
    }
}

/// The scoped discipline for a whole document render.
pub proof fn lemma_structure_well_nested(
    ctx: ImageContext,
    start: Query,
    depth: int,
    ops: Seq<CanvasOp>,
)
    requires
        structure_renders(ctx, start, depth, ops),
    ensures
        well_nested(ops),
{
    if depth < 1 {
        lemma_empty_well_nested();
    } else {
        let pick = choose|pick: Option<int>|
            #[trigger] pick_valid(ctx, start, pick) && match pick {
                None => ops == Seq::<CanvasOp>::empty(),
                Some(p) => {
                    &&& 0 <= p < ctx.objects@.len()
                    &&& render_rel(ctx, ctx.objects@[p].1, depth, SCALE_ONE_MICRO, ops)
                },
            };
        match pick {
            None => {
                lemma_empty_well_nested();
            },
            Some(p) => {
                lemma_render_well_nested(ctx, ctx.objects@[p].1, depth, SCALE_ONE_MICRO, ops);
            },
        }
    }
}

} // verus!

//! End-to-end renders of small documents, checked against the exact
//! command sequences the engine owes them.

use scenegen::canvas::CanvasOp;
use scenegen::canvas::Palette;
use scenegen::canvas::Rgb;
use scenegen::objects::Circle;
use scenegen::objects::Color;
use scenegen::objects::Grid;
use scenegen::objects::Icon;
use scenegen::objects::IconPoint;
use scenegen::objects::Line;
use scenegen::objects::Object;
use scenegen::objects::Placement;
use scenegen::objects::Point;
use scenegen::objects::Ring;
use scenegen::objects::Sequence;
use scenegen::objects::Sun;
use scenegen::random::SeededRandom;
use scenegen::structure::Choose;
use scenegen::structure::ColorScheme;
use scenegen::structure::ImageContext;
use scenegen::structure::Query;
use scenegen::structure::Structure;

const FILL: Rgb = Rgb { red: 900, green: 800, blue: 700 };
const BACKGROUND: Rgb = Rgb { red: 100, green: 200, blue: 300 };

fn test_palette() -> Palette {
    Palette { background_color: BACKGROUND, fill_color: FILL }
}

fn by_name(name: &str) -> Query {
    Query::ByName { by_name: String::from(name), pick_mode: Choose::EveryTime }
}

fn vertex(x: i64, y: i64) -> IconPoint {
    IconPoint { x, y, sa: None, sb: None }
}

fn document(objects: Vec<(String, Object)>, start: Query) -> Structure {
    Structure {
        width: 100,
        height: 100,
        objects,
        start,
        color_scheme: ColorScheme::DarkOnBright,
        line_size: 1000,
        depth: 30,
    }
}

fn set_fill() -> CanvasOp {
    CanvasOp::SetSourceRgb { red: FILL.red, green: FILL.green, blue: FILL.blue }
}

/// A line from (0, 0) to (10, 10) renders as exactly a move, a segment
/// and a stroke.
#[test]
fn line_document_draws_move_line_stroke() {
    let line = Line {
        path: vec![vertex(0, 0), vertex(10_000, 10_000)],
        color: Color::Fill,
        tags: Vec::new(),
    };
    let structure = document(
        vec![(String::from("main"), Object::Line(line))],
        by_name("main"),
    );
    let ctx = ImageContext::new(&structure, test_palette());
    let mut rng = SeededRandom::new(1);
    let ops = structure.render(&ctx, &mut rng, structure.depth);
    assert_eq!(
        ops,
        vec![
            set_fill(),
            CanvasOp::MoveTo { x: 0, y: 0 },
            CanvasOp::LineTo { x: 10_000, y: 10_000 },
            CanvasOp::Stroke,
        ]
    );
}

fn dot_icon() -> Icon {
    Icon {
        path: vec![vertex(0, 0), vertex(1000, 0), vertex(0, 1000)],
        color: Color::Fill,
        tags: Vec::new(),
    }
}

fn dot_ops() -> Vec<CanvasOp> {
    vec![
        set_fill(),
        CanvasOp::MoveTo { x: 0, y: 0 },
        CanvasOp::LineTo { x: 1000, y: 0 },
        CanvasOp::LineTo { x: 0, y: 1000 },
        CanvasOp::ClosePath,
        CanvasOp::Fill,
    ]
}

/// A 2 by 2 grid of 10-unit cells places its query at the four cell
/// centers (-5,-5), (-5,5), (5,-5), (5,5), columns outermost.
#[test]
fn grid_places_four_cells_at_centers() {
    let grid = Grid {
        rows: 2,
        columns: 2,
        width: 10_000,
        height: 10_000,
        query: by_name("dot"),
        angle: 0,
        scale: 100_000,
        x: 0,
        y: 0,
        tags: Vec::new(),
    };
    let structure = document(
        vec![
            (String::from("main"), Object::Grid(grid)),
            (String::from("dot"), Object::Icon(dot_icon())),
        ],
        by_name("main"),
    );
    let ctx = ImageContext::new(&structure, test_palette());
    let mut rng = SeededRandom::new(1);
    let ops = structure.render(&ctx, &mut rng, structure.depth);

    let mut expected = vec![
        CanvasOp::Save,
        CanvasOp::Translate { x: 0, y: 0 },
        CanvasOp::Rotate { millidegrees: 0 },
    ];
    let centers = [(-5000, -5000), (-5000, 5000), (5000, -5000), (5000, 5000)];
    for (cx, cy) in centers {
        expected.push(CanvasOp::Save);
        expected.push(CanvasOp::Translate { x: cx, y: cy });
        expected.push(CanvasOp::Scale { scale_milli: 100_000 });
        expected.extend(dot_ops());
        expected.push(CanvasOp::Restore);
    }
    expected.push(CanvasOp::Restore);
    assert_eq!(ops, expected);
}

/// A 4-segment sun rotates its query by 0, 90, 180 and 270 degrees,
/// pushes it out by the radius, and corrects by a quarter turn.
#[test]
fn sun_places_four_segments_around_circle() {
    let sun = Sun {
        query: by_name("beam"),
        radius: 50_000,
        segments: 4,
        angle: 0,
        scale: 100_000,
        x: 0,
        y: 0,
        tags: Vec::new(),
    };
    let beam = Line {
        path: vec![vertex(0, 0), vertex(0, 20_000)],
        color: Color::Fill,
        tags: Vec::new(),
    };
    let structure = document(
        vec![
            (String::from("main"), Object::Sun(sun)),
            (String::from("beam"), Object::Line(beam)),
        ],
        by_name("main"),
    );
    let ctx = ImageContext::new(&structure, test_palette());
    let mut rng = SeededRandom::new(1);
    let ops = structure.render(&ctx, &mut rng, structure.depth);

    let beam_ops = vec![
        set_fill(),
        CanvasOp::MoveTo { x: 0, y: 0 },
        CanvasOp::LineTo { x: 0, y: 20_000 },
        CanvasOp::Stroke,
    ];
    let mut expected = vec![
        CanvasOp::Save,
        CanvasOp::Translate { x: 0, y: 0 },
        CanvasOp::Rotate { millidegrees: 0 },
    ];
    for k in 0..4i64 {
        expected.push(CanvasOp::Save);
        expected.push(CanvasOp::Rotate { millidegrees: k * 90_000 });
        expected.push(CanvasOp::Translate { x: 50_000, y: 0 });
        expected.push(CanvasOp::Rotate { millidegrees: 90_000 });
        expected.push(CanvasOp::Scale { scale_milli: 100_000 });
        expected.extend(beam_ops.clone());
        expected.push(CanvasOp::Restore);
    }
    expected.push(CanvasOp::Restore);
    assert_eq!(ops, expected);
}

fn self_placement() -> Structure {
    let placement = Placement {
        query: by_name("main"),
        angle: 0,
        scale: 100_000,
        x: 0,
        y: 0,
        tags: Vec::new(),
    };
    Structure {
        width: 100,
        height: 100,
        objects: vec![(String::from("main"), Object::Placement(placement))],
        start: by_name("main"),
        color_scheme: ColorScheme::DarkOnBright,
        line_size: 1000,
        depth: 30,
    }
}

fn count_saves(ops: &[CanvasOp]) -> usize {
    ops.iter().filter(|op| matches!(op, CanvasOp::Save)).count()
}

/// Depth decrement: a placement wrapping itself opens one level with
/// budget 1 and exactly three with budget 3, the budget reaching zero
/// on the next attempt; no paint is ever issued.
#[test]
fn placement_depth_budget_counts_levels() {
    let structure = self_placement();
    let ctx = ImageContext::new(&structure, test_palette());

    let mut rng = SeededRandom::new(1);
    let shallow = structure.render(&ctx, &mut rng, 1);
    assert_eq!(count_saves(&shallow), 1);

    let mut rng = SeededRandom::new(1);
    let deeper = structure.render(&ctx, &mut rng, 3);
    assert_eq!(count_saves(&deeper), 3);

    let mut rng = SeededRandom::new(1);
    let spent = structure.render(&ctx, &mut rng, 0);
    assert_eq!(spent, Vec::new());
}

fn has_draw(ops: &[CanvasOp]) -> bool {
    ops.iter().any(|op| matches!(op, CanvasOp::Fill | CanvasOp::Stroke))
}

/// Scale cutoff: sequences shrinking to 1% each stop drawing once the
/// cumulative scale is invisible, long before the depth budget ends.
fn flat_line() -> Line {
    Line {
        path: vec![vertex(0, 0), vertex(10_000, 0)],
        color: Color::Fill,
        tags: Vec::new(),
    }
}

#[test]
fn shrinking_sequences_stop_drawing() {
    let tiny_inner = Sequence {
        objects: vec![Object::Line(flat_line())],
        angle: 0,
        scale: 1000,
        x: 0,
        y: 0,
        tags: Vec::new(),
    };
    let tiny_outer = Sequence {
        objects: vec![Object::Sequence(tiny_inner)],
        angle: 0,
        scale: 1000,
        x: 0,
        y: 0,
        tags: Vec::new(),
    };
    let structure = document(
        vec![(String::from("main"), Object::Sequence(tiny_outer))],
        by_name("main"),
    );
    let ctx = ImageContext::new(&structure, test_palette());
    let mut rng = SeededRandom::new(1);
    let ops = structure.render(&ctx, &mut rng, structure.depth);
    assert!(!has_draw(&ops));

    // the same nesting at full scale does draw
    let full_inner = Sequence {
        objects: vec![Object::Line(flat_line())],
        angle: 0,
        scale: 100_000,
        x: 0,
        y: 0,
        tags: Vec::new(),
    };
    let full_outer = Sequence {
        objects: vec![Object::Sequence(full_inner)],
        angle: 0,
        scale: 100_000,
        x: 0,
        y: 0,
        tags: Vec::new(),
    };
    let full = document(
        vec![(String::from("main"), Object::Sequence(full_outer))],
        by_name("main"),
    );
    let full_ctx = ImageContext::new(&full, test_palette());
    let mut rng = SeededRandom::new(1);
    let full_ops = full.render(&full_ctx, &mut rng, full.depth);
    assert!(has_draw(&full_ops));
}

/// Missing reference is a no-op: a start query naming nothing issues
/// zero canvas commands.
#[test]
fn missing_start_renders_nothing() {
    let line = Line {
        path: vec![vertex(0, 0), vertex(10_000, 0)],
        color: Color::Fill,
        tags: Vec::new(),
    };
    let structure = document(
        vec![(String::from("main"), Object::Line(line))],
        by_name("missing"),
    );
    let ctx = ImageContext::new(&structure, test_palette());
    let mut rng = SeededRandom::new(1);
    let ops = structure.render(&ctx, &mut rng, structure.depth);
    assert_eq!(ops, Vec::new());
}

/// A curve vertex with one control point present defaults the absent
/// control to the vertex's own endpoint.
#[test]
fn curve_with_one_control_defaults_the_other() {
    let line = Line {
        path: vec![
            vertex(0, 0),
            IconPoint { x: 8000, y: 9000, sa: Some(Point { x: 2000, y: 3000 }), sb: None },
        ],
        color: Color::Fill,
        tags: Vec::new(),
    };
    let structure = document(
        vec![(String::from("main"), Object::Line(line))],
        by_name("main"),
    );
    let ctx = ImageContext::new(&structure, test_palette());
    let mut rng = SeededRandom::new(1);
    let ops = structure.render(&ctx, &mut rng, structure.depth);
    assert_eq!(
        ops,
        vec![
            set_fill(),
            CanvasOp::MoveTo { x: 0, y: 0 },
            CanvasOp::CurveTo { x1: 2000, y1: 3000, x2: 8000, y2: 9000, x: 8000, y: 9000 },
            CanvasOp::Stroke,
        ]
    );
}

/// A ring strokes a full-circle arc, a circle fills one.
#[test]
fn ring_strokes_and_circle_fills_full_arcs() {
    let ring = Ring { radius: 50_000, color: Color::Fill, tags: Vec::new() };
    let structure = document(
        vec![(String::from("main"), Object::Ring(ring))],
        by_name("main"),
    );
    let ctx = ImageContext::new(&structure, test_palette());
    let mut rng = SeededRandom::new(1);
    let ops = structure.render(&ctx, &mut rng, structure.depth);
    let arc = CanvasOp::Arc {
        x: 0,
        y: 0,
        radius: 50_000,
        start_millidegrees: 0,
        end_millidegrees: 360_000,
    };
    assert_eq!(ops, vec![set_fill(), arc, CanvasOp::Stroke]);

    let circle = Circle { radius: 50_000, color: Color::Fill, tags: Vec::new() };
    let structure = document(
        vec![(String::from("main"), Object::Circle(circle))],
        by_name("main"),
    );
    let ctx = ImageContext::new(&structure, test_palette());
    let mut rng = SeededRandom::new(1);
    let ops = structure.render(&ctx, &mut rng, structure.depth);
    assert_eq!(ops, vec![set_fill(), arc, CanvasOp::Fill]);
}

/// A leaf colored Background paints with the palette's background.
#[test]
fn background_color_selector_uses_background() {
    let line = Line {
        path: vec![vertex(0, 0), vertex(10_000, 0)],
        color: Color::Background,
        tags: Vec::new(),
    };
    let structure = document(
        vec![(String::from("main"), Object::Line(line))],
        by_name("main"),
    );
    let ctx = ImageContext::new(&structure, test_palette());
    let mut rng = SeededRandom::new(1);
    let ops = structure.render(&ctx, &mut rng, structure.depth);
    assert_eq!(
        ops[0],
        CanvasOp::SetSourceRgb {
            red: BACKGROUND.red,
            green: BACKGROUND.green,
            blue: BACKGROUND.blue,
        }
    );
}

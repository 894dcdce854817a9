//! The two termination cases: a document whose only object re-queries
//! itself forever must still finish, stopped by the depth budget.

use scenegen::canvas::CanvasOp;
use scenegen::canvas::Palette;
use scenegen::canvas::Rgb;
use scenegen::objects::Grid;
use scenegen::objects::Object;
use scenegen::objects::Sun;
use scenegen::random::SeededRandom;
use scenegen::structure::Choose;
use scenegen::structure::ColorScheme;
use scenegen::structure::ImageContext;
use scenegen::structure::Query;
use scenegen::structure::Structure;

fn test_palette() -> Palette {
    Palette {
        background_color: Rgb { red: 0, green: 0, blue: 0 },
        fill_color: Rgb { red: 1000, green: 1000, blue: 1000 },
    }
}

fn saves_match_restores(ops: &[CanvasOp]) -> bool {
    let mut excess: i64 = 0;
    for op in ops {
        match op {
            CanvasOp::Save => excess += 1,
            CanvasOp::Restore => {
                excess -= 1;
                if excess < 0 {
                    return false;
                }
            }
            _ => {}
        }
    }
    excess == 0
}

#[test]
fn grid_recursion_always_terminates() {
    // a structure that loops for ever but should stop after a while
    let grid = Grid {
        rows: 1,
        columns: 1,
        width: 100_000,
        height: 100_000,
        query: Query::ByName { by_name: String::from("main"), pick_mode: Choose::EveryTime },
        angle: 0,
        scale: 100_000,
        x: 0,
        y: 0,
        tags: Vec::new(),
    };
    let structure = Structure {
        width: 100,
        height: 100,
        objects: vec![(String::from("main"), Object::Grid(grid))],
        start: Query::ByName { by_name: String::from("main"), pick_mode: Choose::EveryTime },
        color_scheme: ColorScheme::DarkOnBright,
        line_size: 1000,
        depth: 100,
    };
    let image_context = ImageContext::new(&structure, test_palette());
    let mut rng = SeededRandom::new(7);
    let ops = structure.render(&image_context, &mut rng, 100);
    // reaching this point means the recursion stopped; the transform
    // stack must also be left balanced
    assert!(saves_match_restores(&ops));
}

#[test]
fn sun_recursion_always_terminates() {
    // a structure that loops for ever but should stop after a while
    let sun = Sun {
        query: Query::ByName { by_name: String::from("main"), pick_mode: Choose::EveryTime },
        radius: 100_000,
        segments: 1,
        angle: 0,
        scale: 100_000,
        x: 0,
        y: 0,
        tags: Vec::new(),
    };
    let structure = Structure {
        width: 100,
        height: 100,
        objects: vec![(String::from("main"), Object::Sun(sun))],
        start: Query::ByName { by_name: String::from("main"), pick_mode: Choose::EveryTime },
        color_scheme: ColorScheme::DarkOnBright,
        line_size: 1000,
        depth: 100,
    };
    let image_context = ImageContext::new(&structure, test_palette());
    let mut rng = SeededRandom::new(7);
    let ops = structure.render(&image_context, &mut rng, 100);
    assert!(saves_match_restores(&ops));
}

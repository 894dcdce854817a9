//! The registry, the query resolver and its choose semantics, the
//! fixed-point helpers, and the random sources.

use scenegen::canvas::CanvasOp;
use scenegen::canvas::Palette;
use scenegen::canvas::Rgb;
use scenegen::gate::combine_scale;
use scenegen::gate::should_continue;
use scenegen::objects::Circle;
use scenegen::objects::Color;
use scenegen::objects::Grid;
use scenegen::objects::Line;
use scenegen::objects::Object;
use scenegen::objects::IconPoint;
use scenegen::random::RandomSource;
use scenegen::random::SeededRandom;
use scenegen::random::ThreadRandom;
use scenegen::structure::Choose;
use scenegen::structure::ColorScheme;
use scenegen::structure::ImageContext;
use scenegen::structure::Query;
use scenegen::structure::Structure;

fn test_palette() -> Palette {
    Palette {
        background_color: Rgb { red: 0, green: 0, blue: 0 },
        fill_color: Rgb { red: 1000, green: 1000, blue: 1000 },
    }
}

fn circle(tags: Vec<String>) -> Object {
    Object::Circle(Circle { radius: 50_000, color: Color::Fill, tags })
}

fn line(tags: Vec<String>) -> Object {
    Object::Line(Line {
        path: vec![
            IconPoint { x: 0, y: 0, sa: None, sb: None },
            IconPoint { x: 10_000, y: 0, sa: None, sb: None },
        ],
        color: Color::Fill,
        tags,
    })
}

fn document(objects: Vec<(String, Object)>, start: Query) -> Structure {
    Structure {
        width: 100,
        height: 100,
        objects,
        start,
        color_scheme: ColorScheme::BrightOnDark,
        line_size: 1000,
        depth: 30,
    }
}

/// Tag aggregation: an object tagged {a, b} is retrievable through
/// either tag.
#[test]
fn object_with_two_tags_found_under_both() {
    let tags = vec![String::from("a"), String::from("b")];
    let structure = document(
        vec![(String::from("obj"), circle(tags))],
        Query::ByName { by_name: String::from("obj"), pick_mode: Choose::EveryTime },
    );
    let ctx = ImageContext::new(&structure, test_palette());

    for tag in ["a", "b"] {
        let query = Query::ByTag {
            by_tag: vec![String::from(tag)],
            pick_mode: Choose::EveryTime,
        };
        let mut qr = ctx.get_element_from_query(&query, 5);
        let mut rng = SeededRandom::new(3);
        assert_eq!(qr.next(&ctx, &mut rng), Some(0));
    }
}

/// A tag nobody carries, or an empty tag list, resolves to nothing.
#[test]
fn unused_tag_resolves_to_nothing() {
    let structure = document(
        vec![(String::from("obj"), circle(vec![String::from("a")]))],
        Query::ByName { by_name: String::from("obj"), pick_mode: Choose::EveryTime },
    );
    let ctx = ImageContext::new(&structure, test_palette());
    let mut rng = SeededRandom::new(3);

    let unused = Query::ByTag {
        by_tag: vec![String::from("zzz")],
        pick_mode: Choose::EveryTime,
    };
    let mut qr = ctx.get_element_from_query(&unused, 5);
    assert_eq!(qr.next(&ctx, &mut rng), None);

    let empty = Query::ByTag { by_tag: Vec::new(), pick_mode: Choose::EveryTime };
    let mut qr = ctx.get_element_from_query(&empty, 5);
    assert_eq!(qr.next(&ctx, &mut rng), None);

    let no_names = Query::OneOfNames { one_of_names: Vec::new(), pick_mode: Choose::EveryTime };
    let mut qr = ctx.get_element_from_query(&no_names, 5);
    assert_eq!(qr.next(&ctx, &mut rng), None);
}

/// A resolver created past the depth budget resolves to nothing, even
/// for a name that exists.
#[test]
fn dead_end_resolver_returns_nothing() {
    let structure = document(
        vec![(String::from("obj"), circle(Vec::new()))],
        Query::ByName { by_name: String::from("obj"), pick_mode: Choose::EveryTime },
    );
    let ctx = ImageContext::new(&structure, test_palette());
    let query = Query::ByName { by_name: String::from("obj"), pick_mode: Choose::EveryTime };
    let mut qr = ctx.get_element_from_query(&query, 0);
    let mut rng = SeededRandom::new(3);
    assert_eq!(qr.next(&ctx, &mut rng), None);
}

/// Choose-once caching: every resolution of one resolver pass returns
/// the first outcome, and that outcome equals the first draw of a
/// choose-every-time resolver run with the same seed.
#[test]
fn choose_once_caches_first_resolution() {
    let objects = vec![
        (String::from("a"), circle(Vec::new())),
        (String::from("b"), line(Vec::new())),
    ];
    let structure = document(
        objects,
        Query::ByName { by_name: String::from("a"), pick_mode: Choose::EveryTime },
    );
    let ctx = ImageContext::new(&structure, test_palette());

    let names = vec![String::from("a"), String::from("b")];
    let once = Query::OneOfNames { one_of_names: names.clone(), pick_mode: Choose::Once };
    let mut qr = ctx.get_element_from_query(&once, 5);
    let mut rng = SeededRandom::new(99);
    let first = qr.next(&ctx, &mut rng);
    assert!(first.is_some());
    for _ in 0..5 {
        assert_eq!(qr.next(&ctx, &mut rng), first);
    }

    let every = Query::OneOfNames { one_of_names: names, pick_mode: Choose::EveryTime };
    let mut qr2 = ctx.get_element_from_query(&every, 5);
    let mut rng2 = SeededRandom::new(99);
    assert_eq!(qr2.next(&ctx, &mut rng2), first);
}

/// Within one choose-once grid pass every cell renders the same
/// object.
#[test]
fn choose_once_grid_renders_same_object_in_every_cell() {
    let grid = Grid {
        rows: 4,
        columns: 4,
        width: 10_000,
        height: 10_000,
        query: Query::OneOfNames {
            one_of_names: vec![String::from("a"), String::from("b")],
            pick_mode: Choose::Once,
        },
        angle: 0,
        scale: 100_000,
        x: 0,
        y: 0,
        tags: Vec::new(),
    };
    let structure = document(
        vec![
            (String::from("main"), Object::Grid(grid)),
            (String::from("a"), circle(Vec::new())),
            (String::from("b"), line(Vec::new())),
        ],
        Query::ByName { by_name: String::from("main"), pick_mode: Choose::EveryTime },
    );
    let ctx = ImageContext::new(&structure, test_palette());
    for seed in 0..8u64 {
        let mut rng = SeededRandom::new(seed);
        let ops = structure.render(&ctx, &mut rng, structure.depth);
        let fills = ops.iter().filter(|op| matches!(op, CanvasOp::Fill)).count();
        let strokes = ops.iter().filter(|op| matches!(op, CanvasOp::Stroke)).count();
        // sixteen cells, all circle (fills) or all line (strokes)
        assert!(
            (fills == 16 && strokes == 0) || (fills == 0 && strokes == 16),
            "cells drew a mix: {} fills, {} strokes",
            fills,
            strokes
        );
    }
}

/// Duplicate names follow last-write-wins: the later entry shadows the
/// earlier one in lookup and in the tag index.
#[test]
fn duplicate_name_resolves_to_last_entry() {
    let structure = document(
        vec![
            (String::from("x"), circle(vec![String::from("t")])),
            (String::from("x"), line(vec![String::from("t")])),
        ],
        Query::ByName { by_name: String::from("x"), pick_mode: Choose::EveryTime },
    );
    let ctx = ImageContext::new(&structure, test_palette());
    assert_eq!(ctx.lookup_by_name(&String::from("x")), Some(1));

    // the shadowed entry is absent from the tag index as well
    let by_tag = Query::ByTag { by_tag: vec![String::from("t")], pick_mode: Choose::EveryTime };
    let mut rng = SeededRandom::new(5);
    for _ in 0..10 {
        let mut qr = ctx.get_element_from_query(&by_tag, 5);
        assert_eq!(qr.next(&ctx, &mut rng), Some(1));
    }
}

#[test]
fn get_tags_returns_every_variant_tags() {
    let tags = vec![String::from("p"), String::from("q")];
    let obj = circle(tags.clone());
    assert_eq!(obj.get_tags(), &tags);
}

#[test]
fn defaults_are_fill_and_every_time() {
    assert!(matches!(Color::default(), Color::Fill));
    assert!(matches!(<Choose as Default>::default(), Choose::EveryTime));
    let q = Query::ByName { by_name: String::from("n"), pick_mode: Choose::Once };
    assert!(matches!(q.get_choose(), Choose::Once));
}

/// The cutoff threshold in micro-units: a cumulative scale of 0.002122
/// keeps the reference diagonal just visible, 0.002121 does not.
#[test]
fn gate_cuts_off_just_below_threshold() {
    assert!(should_continue(1_000_000));
    assert!(should_continue(2122));
    assert!(!should_continue(2121));
    assert!(!should_continue(0));
}

/// Combining scales multiplies in fixed point: applying a scale field
/// of 50 (half) to the neutral factor gives half.
#[test]
fn combine_scale_multiplies_fixed_point() {
    assert_eq!(combine_scale(1_000_000, 50_000), 500_000);
    assert_eq!(combine_scale(500_000, 50_000), 250_000);
    assert_eq!(combine_scale(1_000_000, 100_000), 1_000_000);
    // a negative scale mirrors but keeps its magnitude
    assert_eq!(combine_scale(1_000_000, -50_000), 500_000);
    // saturation keeps rendering on rather than wrapping
    assert_eq!(combine_scale(u64::MAX, i64::MAX), u64::MAX);
}

/// The seeded source is deterministic and the process-wide source
/// stays below its bound; a pick below bound 1 can only be 0.
#[test]
fn random_sources_respect_bounds() {
    let mut a = SeededRandom::new(123);
    let mut b = SeededRandom::new(123);
    for bound in 1..50usize {
        let pa = a.pick(bound);
        assert_eq!(pa, b.pick(bound));
        assert!(pa < bound);
    }
    let mut t = ThreadRandom::new();
    for _ in 0..100 {
        assert_eq!(t.pick(1), 0);
        assert!(t.pick(7) < 7);
    }
}

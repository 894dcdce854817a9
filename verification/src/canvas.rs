//! The command language of the drawing surface.
//!
//! The renderer never touches a concrete surface: it emits a sequence of
//! `CanvasOp` values, and a host replays them on whatever 2D backend it
//! has. Coordinates are milli-units (1000 = one user unit), angles are
//! milli-degrees (90_000 = a quarter turn), and a scale value of 100_000
//! stands for the neutral factor 1 (the document convention is that a
//! scale of 100 means "unchanged").

use vstd::prelude::*;

verus! {

/// A color with red, green and blue channels in milli-units:
/// 1000 is full intensity of a channel, 0 is none.
#[derive(Clone, Copy, PartialEq, Eq, Structural, Debug)]
pub struct Rgb {
    pub red: u16,
    pub green: u16,
    pub blue: u16,
}

/// The two colors a document can ask for, produced once per render
/// session by the host's color-scheme generator.
#[derive(Clone, Copy, PartialEq, Eq, Structural, Debug)]
pub struct Palette {
    pub background_color: Rgb,
    pub fill_color: Rgb,
}

/// One drawing command. `Stroke` strokes the current path with the line
/// width the host configured, undisturbed by the transform in force
/// (hairline discipline); everything else matches the usual 2D surface
/// vocabulary.
#[derive(Clone, Copy, PartialEq, Eq, Structural, Debug)]
pub enum CanvasOp {
    /// Push the current transform onto the transform stack.
    Save,
    /// Pop the transform stack.
    Restore,
    /// Move the origin by (x, y) milli-units.
    Translate { x: i64, y: i64 },
    /// Rotate by the given angle in milli-degrees.
    Rotate { millidegrees: i64 },
    /// Scale both axes by scale_milli / 100_000.
    Scale { scale_milli: i64 },
    /// Begin a new sub-path at (x, y) milli-units.
    MoveTo { x: i64, y: i64 },
    /// Straight segment to (x, y).
    LineTo { x: i64, y: i64 },
    /// Cubic segment with controls (x1, y1), (x2, y2), ending at (x, y).
    CurveTo { x1: i64, y1: i64, x2: i64, y2: i64, x: i64, y: i64 },
    /// Close the current sub-path.
    ClosePath,
    /// Circular arc around (x, y) with the given radius, from
    /// start_millidegrees to end_millidegrees.
    Arc { x: i64, y: i64, radius: i64, start_millidegrees: i64, end_millidegrees: i64 },
    /// Set the paint color for the following fill or stroke commands.
    SetSourceRgb { red: u16, green: u16, blue: u16 },
    /// Fill the current path with the paint color.
    Fill,
    /// Stroke the current path, keeping the configured line width
    /// regardless of the transform in force.
    Stroke,
}

impl CanvasOp {
    /// True of the commands that put paint on the surface.
    pub open spec fn is_draw(self) -> bool {
        self is Fill || self is Stroke
    }
}

/// True when no command of the sequence puts paint on the surface.
pub open spec fn draw_free(ops: Seq<CanvasOp>) -> bool {
    forall|i: int| 0 <= i < ops.len() ==> !(#[trigger] ops[i]).is_draw()
}

/// Number of `Save` commands minus number of `Restore` commands.
pub open spec fn save_excess(ops: Seq<CanvasOp>) -> int
    decreases ops.len(),
{
    if ops.len() == 0 {
        0
    } else {
        save_excess(ops.drop_last()) + match ops.last() {
            CanvasOp::Save => 1int,
            CanvasOp::Restore => -1int,
            _ => 0int,
        }
    }
}

/// The scoped-transform discipline: every `Save` is matched by a later
/// `Restore` and no prefix restores more than it saved, so a replayed
/// sequence leaves the host's transform stack exactly as it found it.
pub open spec fn well_nested(ops: Seq<CanvasOp>) -> bool {
    &&& save_excess(ops) == 0
    &&& forall|i: int| 0 <= i <= ops.len() ==> save_excess(#[trigger] ops.take(i)) >= 0
}

/// Stack commands count one by one across a concatenation.
pub proof fn lemma_save_excess_concat(a: Seq<CanvasOp>, b: Seq<CanvasOp>)
    ensures
        save_excess(a + b) == save_excess(a) + save_excess(b),
    decreases b.len(),
{
    if b.len() == 0 {
        assert(a + b =~= a);
    } else {
        lemma_save_excess_concat(a, b.drop_last());
        assert((a + b).drop_last() =~= a + b.drop_last());
        assert((a + b).last() == b.last());
    }
}

/// Well-nestedness is closed under concatenation.
pub proof fn lemma_well_nested_concat(a: Seq<CanvasOp>, b: Seq<CanvasOp>)
    requires
        well_nested(a),
        well_nested(b),
    ensures
        well_nested(a + b),
{
    lemma_save_excess_concat(a, b);
    assert forall|i: int| 0 <= i <= (a + b).len() implies save_excess(
        #[trigger] (a + b).take(i),
    ) >= 0 by {
        if i <= a.len() {
            assert((a + b).take(i) =~= a.take(i));
        } else {
            assert((a + b).take(i) =~= a + b.take(i - a.len()));
            lemma_save_excess_concat(a, b.take(i - a.len()));
        }
    }
}

/// A sequence without stack commands is well nested.
pub proof fn lemma_stack_free_well_nested(ops: Seq<CanvasOp>)
    requires
        forall|i: int|
            0 <= i < ops.len() ==> !((#[trigger] ops[i]) is Save) && !(ops[i] is Restore),
    ensures
        well_nested(ops),
    decreases ops.len(),
{
    if ops.len() > 0 {
        lemma_stack_free_well_nested(ops.drop_last());
        assert forall|i: int| 0 <= i <= ops.len() implies save_excess(
            #[trigger] ops.take(i),
        ) >= 0 by {
            if i < ops.len() {
                assert(ops.take(i) =~= ops.drop_last().take(i));
            } else {
                assert(ops.take(i) =~= ops);
            }
        }
    }
}

/// A block that opens the stack once (a `Save` first, no other stack
/// command after it), runs a well-nested middle, and closes with one
/// `Restore`, is well nested as a whole.
pub proof fn lemma_scope_well_nested(pre: Seq<CanvasOp>, mid: Seq<CanvasOp>)
    requires
        pre.len() >= 1,
        pre[0] is Save,
        forall|i: int|
            1 <= i < pre.len() ==> !((#[trigger] pre[i]) is Save) && !(pre[i] is Restore),
        well_nested(mid),
    ensures
        well_nested(pre + mid + seq![CanvasOp::Restore]),
{
    reveal_with_fuel(save_excess, 3);
    assert(pre =~= seq![pre[0]] + pre.skip(1));
    lemma_stack_free_well_nested(pre.skip(1));
    lemma_save_excess_concat(seq![pre[0]], pre.skip(1));
    assert(save_excess(seq![pre[0]]) == 1) by {
        assert(seq![pre[0]].drop_last() =~= Seq::<CanvasOp>::empty());
    }
    lemma_save_excess_concat(pre, mid);
    lemma_save_excess_concat(pre + mid, seq![CanvasOp::Restore]);
    assert(save_excess(seq![CanvasOp::Restore]) == -1) by {
        assert(seq![CanvasOp::Restore].drop_last() =~= Seq::<CanvasOp>::empty());
    }
    let whole = pre + mid + seq![CanvasOp::Restore];
    assert forall|i: int| 0 <= i <= whole.len() implies save_excess(
        #[trigger] whole.take(i),
    ) >= 0 by {
        if i == 0 {
            assert(whole.take(i) =~= Seq::<CanvasOp>::empty());
        } else if i <= pre.len() {
            assert(whole.take(i) =~= seq![pre[0]] + pre.skip(1).take(i - 1));
            lemma_save_excess_concat(seq![pre[0]], pre.skip(1).take(i - 1));
            assert(save_excess(seq![pre[0]]) == 1) by {
                assert(seq![pre[0]].drop_last() =~= Seq::<CanvasOp>::empty());
            }
            assert(save_excess(pre.skip(1).take(i - 1)) >= 0) by {
                lemma_stack_free_well_nested(pre.skip(1).take(i - 1));
            }
        } else if i <= pre.len() + mid.len() {
            assert(whole.take(i) =~= pre + mid.take(i - pre.len()));
            lemma_save_excess_concat(pre, mid.take(i - pre.len()));
        } else {
            assert(whole.take(i) =~= whole);
        }
    }
}

} // verus!

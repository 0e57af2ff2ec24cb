//! Laws on what each command line does, stated against the tokens of its data: which
//! token gives which argument, the default where a token is missing, and on which data a
//! line is accepted.
use vstd::prelude::*;
use crate::canvas::{canvas_step, command_parts, CanvasActionView, CanvasStepView, RefusalView};
use crate::chars::{
    index_of, splitn, lemma_prefix_while_facts, lemma_prefix_while_is, lemma_prefix_while_len,
    lemma_suffix_while_facts, prefix_while, split_ws, suffix_while, trim, trim_start, is_ws,
    ws_pred, not_char, trim_start_spaces,
};
use crate::error::ErrorView;
use crate::number::{all_radix_digits, char_digit, i32_value, is_float_literal, radix_value, unsigned_value};
use crate::text::{text_path_command, unescape, HorizontalAlign, TextPathCommandView, VerticalAlign};
use crate::path::BooleanOp;
use crate::stroke::{dash_numbers, stroke_style, Cap, Join, StrokeStyleView, TrimEffectView};
use crate::transform::{svg_transform, transform_kind, TransformKind};
use crate::util::{fill_color, hex_color, strip_hash, Color, F32ArgView, FillColorView};

verus! {

/// The names of the commands differ from one another.
proof fn lemma_command_names_distinct()
    ensures
        "path"@ != "text_path"@,
        "path"@ != "transform"@,
        "path"@ != "stroke"@,
        "path"@ != "stroke_to_path"@,
        "path"@ != "boolean"@,
        "path"@ != "round"@,
        "path"@ != "simplify"@,
        "path"@ != "path_noise"@,
        "path"@ != "path_duplicate_array"@,
        "path"@ != "path_duplicate_grid"@,
        "path"@ != "path_duplicate_random"@,
        "path"@ != "path_transform"@,
        "path"@ != "fill"@,
        "text_path"@ != "transform"@,
        "text_path"@ != "stroke"@,
        "text_path"@ != "stroke_to_path"@,
        "text_path"@ != "boolean"@,
        "text_path"@ != "round"@,
        "text_path"@ != "simplify"@,
        "text_path"@ != "path_noise"@,
        "text_path"@ != "path_duplicate_array"@,
        "text_path"@ != "path_duplicate_grid"@,
        "text_path"@ != "path_duplicate_random"@,
        "text_path"@ != "path_transform"@,
        "text_path"@ != "fill"@,
        "transform"@ != "stroke"@,
        "transform"@ != "stroke_to_path"@,
        "transform"@ != "boolean"@,
        "transform"@ != "round"@,
        "transform"@ != "simplify"@,
        "transform"@ != "path_noise"@,
        "transform"@ != "path_duplicate_array"@,
        "transform"@ != "path_duplicate_grid"@,
        "transform"@ != "path_duplicate_random"@,
        "transform"@ != "path_transform"@,
        "transform"@ != "fill"@,
        "stroke"@ != "stroke_to_path"@,
        "stroke"@ != "boolean"@,
        "stroke"@ != "round"@,
        "stroke"@ != "simplify"@,
        "stroke"@ != "path_noise"@,
        "stroke"@ != "path_duplicate_array"@,
        "stroke"@ != "path_duplicate_grid"@,
        "stroke"@ != "path_duplicate_random"@,
        "stroke"@ != "path_transform"@,
        "stroke"@ != "fill"@,
        "stroke_to_path"@ != "boolean"@,
        "stroke_to_path"@ != "round"@,
        "stroke_to_path"@ != "simplify"@,
        "stroke_to_path"@ != "path_noise"@,
        "stroke_to_path"@ != "path_duplicate_array"@,
        "stroke_to_path"@ != "path_duplicate_grid"@,
        "stroke_to_path"@ != "path_duplicate_random"@,
        "stroke_to_path"@ != "path_transform"@,
        "stroke_to_path"@ != "fill"@,
        "boolean"@ != "round"@,
        "boolean"@ != "simplify"@,
        "boolean"@ != "path_noise"@,
        "boolean"@ != "path_duplicate_array"@,
        "boolean"@ != "path_duplicate_grid"@,
        "boolean"@ != "path_duplicate_random"@,
        "boolean"@ != "path_transform"@,
        "boolean"@ != "fill"@,
        "round"@ != "simplify"@,
        "round"@ != "path_noise"@,
        "round"@ != "path_duplicate_array"@,
        "round"@ != "path_duplicate_grid"@,
        "round"@ != "path_duplicate_random"@,
        "round"@ != "path_transform"@,
        "round"@ != "fill"@,
        "simplify"@ != "path_noise"@,
        "simplify"@ != "path_duplicate_array"@,
        "simplify"@ != "path_duplicate_grid"@,
        "simplify"@ != "path_duplicate_random"@,
        "simplify"@ != "path_transform"@,
        "simplify"@ != "fill"@,
        "path_noise"@ != "path_duplicate_array"@,
        "path_noise"@ != "path_duplicate_grid"@,
        "path_noise"@ != "path_duplicate_random"@,
        "path_noise"@ != "path_transform"@,
        "path_noise"@ != "fill"@,
        "path_duplicate_array"@ != "path_duplicate_grid"@,
        "path_duplicate_array"@ != "path_duplicate_random"@,
        "path_duplicate_array"@ != "path_transform"@,
        "path_duplicate_array"@ != "fill"@,
        "path_duplicate_grid"@ != "path_duplicate_random"@,
        "path_duplicate_grid"@ != "path_transform"@,
        "path_duplicate_grid"@ != "fill"@,
        "path_duplicate_random"@ != "path_transform"@,
        "path_duplicate_random"@ != "fill"@,
        "path_transform"@ != "fill"@,
{
    reveal_strlit("path");
    reveal_strlit("text_path");
    reveal_strlit("transform");
    reveal_strlit("stroke");
    reveal_strlit("stroke_to_path");
    reveal_strlit("boolean");
    reveal_strlit("round");
    reveal_strlit("simplify");
    reveal_strlit("path_noise");
    reveal_strlit("path_duplicate_array");
    reveal_strlit("path_duplicate_grid");
    reveal_strlit("path_duplicate_random");
    reveal_strlit("path_transform");
    reveal_strlit("fill");
    assert("path"@.len() != "text_path"@.len());
    assert("path"@.len() != "transform"@.len());
    assert("path"@.len() != "stroke"@.len());
    assert("path"@.len() != "stroke_to_path"@.len());
    assert("path"@.len() != "boolean"@.len());
    assert("path"@.len() != "round"@.len());
    assert("path"@.len() != "simplify"@.len());
    assert("path"@.len() != "path_noise"@.len());
    assert("path"@.len() != "path_duplicate_array"@.len());
    assert("path"@.len() != "path_duplicate_grid"@.len());
    assert("path"@.len() != "path_duplicate_random"@.len());
    assert("path"@.len() != "path_transform"@.len());
    assert("path"@[0] != "fill"@[0]);
    assert("text_path"@[1] != "transform"@[1]);
    assert("text_path"@.len() != "stroke"@.len());
    assert("text_path"@.len() != "stroke_to_path"@.len());
    assert("text_path"@.len() != "boolean"@.len());
    assert("text_path"@.len() != "round"@.len());
    assert("text_path"@.len() != "simplify"@.len());
    assert("text_path"@.len() != "path_noise"@.len());
    assert("text_path"@.len() != "path_duplicate_array"@.len());
    assert("text_path"@.len() != "path_duplicate_grid"@.len());
    assert("text_path"@.len() != "path_duplicate_random"@.len());
    assert("text_path"@.len() != "path_transform"@.len());
    assert("text_path"@.len() != "fill"@.len());
    assert("transform"@.len() != "stroke"@.len());
    assert("transform"@.len() != "stroke_to_path"@.len());
    assert("transform"@.len() != "boolean"@.len());
    assert("transform"@.len() != "round"@.len());
    assert("transform"@.len() != "simplify"@.len());
    assert("transform"@.len() != "path_noise"@.len());
    assert("transform"@.len() != "path_duplicate_array"@.len());
    assert("transform"@.len() != "path_duplicate_grid"@.len());
    assert("transform"@.len() != "path_duplicate_random"@.len());
    assert("transform"@.len() != "path_transform"@.len());
    assert("transform"@.len() != "fill"@.len());
    assert("stroke"@.len() != "stroke_to_path"@.len());
    assert("stroke"@.len() != "boolean"@.len());
    assert("stroke"@.len() != "round"@.len());
    assert("stroke"@.len() != "simplify"@.len());
    assert("stroke"@.len() != "path_noise"@.len());
    assert("stroke"@.len() != "path_duplicate_array"@.len());
    assert("stroke"@.len() != "path_duplicate_grid"@.len());
    assert("stroke"@.len() != "path_duplicate_random"@.len());
    assert("stroke"@.len() != "path_transform"@.len());
    assert("stroke"@.len() != "fill"@.len());
    assert("stroke_to_path"@.len() != "boolean"@.len());
    assert("stroke_to_path"@.len() != "round"@.len());
    assert("stroke_to_path"@.len() != "simplify"@.len());
    assert("stroke_to_path"@.len() != "path_noise"@.len());
    assert("stroke_to_path"@.len() != "path_duplicate_array"@.len());
    assert("stroke_to_path"@.len() != "path_duplicate_grid"@.len());
    assert("stroke_to_path"@.len() != "path_duplicate_random"@.len());
    assert("stroke_to_path"@[0] != "path_transform"@[0]);
    assert("stroke_to_path"@.len() != "fill"@.len());
    assert("boolean"@.len() != "round"@.len());
    assert("boolean"@.len() != "simplify"@.len());
    assert("boolean"@.len() != "path_noise"@.len());
    assert("boolean"@.len() != "path_duplicate_array"@.len());
    assert("boolean"@.len() != "path_duplicate_grid"@.len());
    assert("boolean"@.len() != "path_duplicate_random"@.len());
    assert("boolean"@.len() != "path_transform"@.len());
    assert("boolean"@.len() != "fill"@.len());
    assert("round"@.len() != "simplify"@.len());
    assert("round"@.len() != "path_noise"@.len());
    assert("round"@.len() != "path_duplicate_array"@.len());
    assert("round"@.len() != "path_duplicate_grid"@.len());
    assert("round"@.len() != "path_duplicate_random"@.len());
    assert("round"@.len() != "path_transform"@.len());
    assert("round"@.len() != "fill"@.len());
    assert("simplify"@.len() != "path_noise"@.len());
    assert("simplify"@.len() != "path_duplicate_array"@.len());
    assert("simplify"@.len() != "path_duplicate_grid"@.len());
    assert("simplify"@.len() != "path_duplicate_random"@.len());
    assert("simplify"@.len() != "path_transform"@.len());
    assert("simplify"@.len() != "fill"@.len());
    assert("path_noise"@.len() != "path_duplicate_array"@.len());
    assert("path_noise"@.len() != "path_duplicate_grid"@.len());
    assert("path_noise"@.len() != "path_duplicate_random"@.len());
    assert("path_noise"@.len() != "path_transform"@.len());
    assert("path_noise"@.len() != "fill"@.len());
    assert("path_duplicate_array"@.len() != "path_duplicate_grid"@.len());
    assert("path_duplicate_array"@.len() != "path_duplicate_random"@.len());
    assert("path_duplicate_array"@.len() != "path_transform"@.len());
    assert("path_duplicate_array"@.len() != "fill"@.len());
    assert("path_duplicate_grid"@.len() != "path_duplicate_random"@.len());
    assert("path_duplicate_grid"@.len() != "path_transform"@.len());
    assert("path_duplicate_grid"@.len() != "fill"@.len());
    assert("path_duplicate_random"@.len() != "path_transform"@.len());
    assert("path_duplicate_random"@.len() != "fill"@.len());
    assert("path_transform"@.len() != "fill"@.len());
}

/// A text whose trimmed form is empty is all whitespace, and the other way round.
proof fn lemma_blank_is_whitespace(s: Seq<char>)
    ensures
        trim(s).len() == 0 <==> forall|j: int| 0 <= j < s.len() ==> is_ws(#[trigger] s[j]),
{
    let a = prefix_while(s, ws_pred());
    lemma_prefix_while_facts(s, ws_pred());
    let u = s.skip(a as int);
    lemma_suffix_while_facts(u, ws_pred());
    if trim(s).len() == 0 {
        assert forall|j: int| 0 <= j < s.len() implies is_ws(#[trigger] s[j]) by {
            if j < a {
                assert(ws_pred()(s[j]));
            } else {
                assert(u[j - a] == s[j]);
                assert(ws_pred()(u[j - a]));
            }
        }
    }
    if forall|j: int| 0 <= j < s.len() ==> is_ws(#[trigger] s[j]) {
        assert forall|j: int| 0 <= j < s.len() implies #[trigger] ws_pred()(s[j]) by {
            assert(is_ws(s[j]));
        }
        lemma_prefix_while_is(s, ws_pred(), s.len() as int);
    }
}

/// A line with a non-empty command name is not blank.
proof fn lemma_named_line_not_blank(line: Seq<char>)
    ensures
        command_parts(line).0.len() > 0 ==> trim(line).len() > 0,
{
    lemma_blank_is_whitespace(line);
    let k = index_of(line, ':');
    lemma_prefix_while_len(line, crate::chars::not_char(':'));
    if k < line.len() && trim(line).len() == 0 {
        let p = line.take(k as int);
        assert forall|j: int| 0 <= j < p.len() implies is_ws(#[trigger] p[j]) by {
            assert(p[j] == line[j]);
        }
        lemma_blank_is_whitespace(p);
    }
}

/// The number at position `i` of the tokens `t`, or the whole number `default` where the
/// tokens end before it.
pub open spec fn number_at(t: Seq<Seq<char>>, i: int, default: u32) -> F32ArgView {
    if i < t.len() {
        F32ArgView::Literal(t[i])
    } else {
        F32ArgView::Whole(default)
    }
}

/// The integer at position `i` of the tokens `t`, or `default` where they end before it.
pub open spec fn integer_at(t: Seq<Seq<char>>, i: int, default: i32) -> i32 {
    if i < t.len() {
        match i32_value(t[i]) {
            Some(n) => n,
            None => default,
        }
    } else {
        default
    }
}

/// `n`, or 1 where `n` is less.
pub open spec fn at_least_1(n: i32) -> usize {
    if n < 1 {
        1
    } else {
        n as usize
    }
}

/// Position `i` of `t` holds an `f32` or nothing.
pub open spec fn number_ok(t: Seq<Seq<char>>, i: int) -> bool {
    i >= t.len() || is_float_literal(t[i])
}

/// Position `i` of `t` holds an `i32` or nothing.
pub open spec fn integer_ok(t: Seq<Seq<char>>, i: int) -> bool {
    i >= t.len() || i32_value(t[i]) is Some
}

/// A `stroke` line over paths whose data is a stroke makes that stroke wait, whatever
/// waited before (nothing, or another stroke, which it draws first). Over no paths the line
/// is skipped; where its data is refused, nothing is drawn.
pub proof fn lemma_stroke_line(line: Seq<char>, pending: Option<StrokeStyleView>, paths_empty: bool)
    requires
        command_parts(line).0 == "stroke"@,
    ensures
        paths_empty ==> canvas_step(line, pending, paths_empty)
            == Ok::<CanvasStepView, RefusalView>(CanvasStepView { draw: None, action: CanvasActionView::Keep, pending }),
        !paths_empty ==> match stroke_style(command_parts(line).1) {
            Ok(s) => canvas_step(line, pending, paths_empty) == Ok::<CanvasStepView, RefusalView>(
                CanvasStepView { draw: pending, action: CanvasActionView::Keep, pending: Some(s) },
            ),
            Err(e) => canvas_step(line, pending, paths_empty) == Err::<CanvasStepView, RefusalView>(
                RefusalView { draw: None, action: CanvasActionView::Keep, error: e },
            ),
        },
{
    reveal_strlit("stroke");
    lemma_command_names_distinct();
    lemma_named_line_not_blank(line);
}

/// `path_duplicate_array: count dx dy rotation pivot_x pivot_y separate`: the tokens in
/// that order, each optional (2, 0, 0, 0, 0, 0, 1), the count at least 1 and the flag set
/// where it is not 0. The line is accepted exactly where each of these tokens that is
/// there is a number of its kind; it draws the waiting stroke first, accepted or not.
pub proof fn lemma_duplicate_array_line(line: Seq<char>, pending: Option<StrokeStyleView>, paths_empty: bool)
    requires
        command_parts(line).0 == "path_duplicate_array"@,
    ensures
        ({
            let t = split_ws(command_parts(line).1);
            &&& canvas_step(line, pending, paths_empty) is Ok <==> (integer_ok(t, 0) && number_ok(t, 1)
                && number_ok(t, 2) && number_ok(t, 3) && number_ok(t, 4) && number_ok(t, 5)
                && integer_ok(t, 6))
            &&& canvas_step(line, pending, paths_empty) matches Ok(step) ==> step == CanvasStepView {
                draw: pending,
                action: CanvasActionView::DuplicateArray {
                    count: at_least_1(integer_at(t, 0, 2)),
                    dx: number_at(t, 1, 0),
                    dy: number_at(t, 2, 0),
                    rotation: number_at(t, 3, 0),
                    pivot_x: number_at(t, 4, 0),
                    pivot_y: number_at(t, 5, 0),
                    separate_copies: integer_at(t, 6, 1) != 0,
                },
                pending: None,
            }
            &&& canvas_step(line, pending, paths_empty) matches Err(r) ==> r.draw == pending
        }),
{
    reveal_strlit("path_duplicate_array");
    lemma_command_names_distinct();
    lemma_named_line_not_blank(line);
}

/// `path_noise: segment_length deviation seed sketch_count`: the tokens in that order, each
/// optional (8, 2, 0, 1), the seed's bits taken as unsigned and the sketch count at least
/// 1. Accepted exactly where each of these tokens that is there is a number of its kind;
/// the waiting stroke is drawn first, accepted or not.
pub proof fn lemma_path_noise_line(line: Seq<char>, pending: Option<StrokeStyleView>, paths_empty: bool)
    requires
        command_parts(line).0 == "path_noise"@,
    ensures
        ({
            let t = split_ws(command_parts(line).1);
            &&& canvas_step(line, pending, paths_empty) is Ok <==> (number_ok(t, 0) && number_ok(t, 1) && integer_ok(t, 2) && integer_ok(t, 3))
            &&& canvas_step(line, pending, paths_empty) matches Ok(step) ==> step == CanvasStepView {
                draw: pending,
                action: CanvasActionView::PathNoise {
                    segment_length: number_at(t, 0, 8),
                    deviation: number_at(t, 1, 2),
                    seed: integer_at(t, 2, 0) as u32,
                    sketch_count: at_least_1(integer_at(t, 3, 1)),
                },
                pending: None,
            }
            &&& canvas_step(line, pending, paths_empty) matches Err(r) ==> r.draw == pending
        }),
{
    reveal_strlit("path_noise");
    lemma_command_names_distinct();
    lemma_named_line_not_blank(line);
}

/// `path_transform: dx dy scale rotation pivot_x pivot_y`: the tokens in that order, each
/// optional (0, 0, 1, 0, 0, 0). Accepted exactly where each of these tokens that is there
/// is a number; the waiting stroke is drawn first, accepted or not.
pub proof fn lemma_path_transform_line(line: Seq<char>, pending: Option<StrokeStyleView>, paths_empty: bool)
    requires
        command_parts(line).0 == "path_transform"@,
    ensures
        ({
            let t = split_ws(command_parts(line).1);
            &&& canvas_step(line, pending, paths_empty) is Ok <==> (number_ok(t, 0) && number_ok(t, 1) && number_ok(t, 2) && number_ok(t, 3) && number_ok(t, 4) && number_ok(t, 5))
            &&& canvas_step(line, pending, paths_empty) matches Ok(step) ==> step == CanvasStepView {
                draw: pending,
                action: CanvasActionView::PathTransform {
                    dx: number_at(t, 0, 0),
                    dy: number_at(t, 1, 0),
                    scale: number_at(t, 2, 1),
                    rotation: number_at(t, 3, 0),
                    pivot_x: number_at(t, 4, 0),
                    pivot_y: number_at(t, 5, 0),
                },
                pending: None,
            }
            &&& canvas_step(line, pending, paths_empty) matches Err(r) ==> r.draw == pending
        }),
{
    reveal_strlit("path_transform");
    lemma_command_names_distinct();
    lemma_named_line_not_blank(line);
}

/// `path_duplicate_grid: width height x_count y_count column_order separate`: the tokens in
/// that order, each optional (200, 200, 3, 3, 0, 1), the counts at least 1 and the flags
/// set where they are not 0. Accepted exactly where each of these tokens that is there is
/// a number of its kind; the waiting stroke is drawn first, accepted or not.
pub proof fn lemma_duplicate_grid_line(line: Seq<char>, pending: Option<StrokeStyleView>, paths_empty: bool)
    requires
        command_parts(line).0 == "path_duplicate_grid"@,
    ensures
        ({
            let t = split_ws(command_parts(line).1);
            &&& canvas_step(line, pending, paths_empty) is Ok <==> (number_ok(t, 0) && number_ok(t, 1) && integer_ok(t, 2) && integer_ok(t, 3) && integer_ok(t, 4) && integer_ok(t, 5))
            &&& canvas_step(line, pending, paths_empty) matches Ok(step) ==> step == CanvasStepView {
                draw: pending,
                action: CanvasActionView::DuplicateGrid {
                    width: number_at(t, 0, 200),
                    height: number_at(t, 1, 200),
                    x_count: at_least_1(integer_at(t, 2, 3)),
                    y_count: at_least_1(integer_at(t, 3, 3)),
                    column_order: integer_at(t, 4, 0) != 0,
                    separate_copies: integer_at(t, 5, 1) != 0,
                },
                pending: None,
            }
            &&& canvas_step(line, pending, paths_empty) matches Err(r) ==> r.draw == pending
        }),
{
    reveal_strlit("path_duplicate_grid");
    lemma_command_names_distinct();
    lemma_named_line_not_blank(line);
}

/// `path_duplicate_random: count spread_x spread_y seed separate`: the tokens in that
/// order, each optional (10, 400, 400, 0, 1), the count at least 1, the seed's bits taken
/// as unsigned and the flag set where it is not 0. Accepted exactly where each of these
/// tokens that is there is a number of its kind; the waiting stroke is drawn first,
/// accepted or not.
pub proof fn lemma_duplicate_random_line(line: Seq<char>, pending: Option<StrokeStyleView>, paths_empty: bool)
    requires
        command_parts(line).0 == "path_duplicate_random"@,
    ensures
        ({
            let t = split_ws(command_parts(line).1);
            &&& canvas_step(line, pending, paths_empty) is Ok <==> (integer_ok(t, 0) && number_ok(t, 1) && number_ok(t, 2) && integer_ok(t, 3) && integer_ok(t, 4))
            &&& canvas_step(line, pending, paths_empty) matches Ok(step) ==> step == CanvasStepView {
                draw: pending,
                action: CanvasActionView::DuplicateRandom {
                    count: at_least_1(integer_at(t, 0, 10)),
                    spread_x: number_at(t, 1, 400),
                    spread_y: number_at(t, 2, 400),
                    seed: integer_at(t, 3, 0) as u32,
                    separate_copies: integer_at(t, 4, 1) != 0,
                },
                pending: None,
            }
            &&& canvas_step(line, pending, paths_empty) matches Err(r) ==> r.draw == pending
        }),
{
    reveal_strlit("path_duplicate_random");
    lemma_command_names_distinct();
    lemma_named_line_not_blank(line);
}

/// `round: radius`: the radius is the whole data, trimmed, and must be an `f32`; where it is
/// not, the error names the data as written. The waiting stroke is drawn first, accepted
/// or not.
pub proof fn lemma_round_line(line: Seq<char>, pending: Option<StrokeStyleView>, paths_empty: bool)
    requires
        command_parts(line).0 == "round"@,
    ensures
        ({
            let data = command_parts(line).1;
            &&& is_float_literal(trim(data)) ==> canvas_step(line, pending, paths_empty)
                == Ok::<CanvasStepView, RefusalView>(CanvasStepView {
                    draw: pending,
                    action: CanvasActionView::Round(trim(data)),
                    pending: None,
                })
            &&& !is_float_literal(trim(data)) ==> canvas_step(line, pending, paths_empty)
                == Err::<CanvasStepView, RefusalView>(RefusalView {
                    draw: pending,
                    action: CanvasActionView::Keep,
                    error: ErrorView::NotANumber { name: "round radius"@, value: data },
                })
        }),
{
    reveal_strlit("round");
    lemma_command_names_distinct();
    lemma_named_line_not_blank(line);
}

/// The word that names each boolean operation.
pub open spec fn boolean_word(op: BooleanOp) -> Seq<char> {
    match op {
        BooleanOp::Union => "OR"@,
        BooleanOp::Intersect => "AND"@,
        BooleanOp::Xor => "XOR"@,
    }
}

/// `boolean: word`: the operation is the one that the trimmed data names (`OR`, `AND` or
/// `XOR`); any other word is refused and named in the error. The waiting stroke is drawn
/// first, accepted or not.
pub proof fn lemma_boolean_line(line: Seq<char>, pending: Option<StrokeStyleView>, paths_empty: bool, op: BooleanOp)
    requires
        command_parts(line).0 == "boolean"@,
    ensures
        ({
            let word = trim(command_parts(line).1);
            &&& word == boolean_word(op) ==> canvas_step(line, pending, paths_empty)
                == Ok::<CanvasStepView, RefusalView>(CanvasStepView {
                    draw: pending,
                    action: CanvasActionView::Boolean(op),
                    pending: None,
                })
            &&& (word != "OR"@ && word != "AND"@ && word != "XOR"@) ==> canvas_step(line, pending, paths_empty)
                == Err::<CanvasStepView, RefusalView>(RefusalView {
                    draw: pending,
                    action: CanvasActionView::Keep,
                    error: ErrorView::UnsupportedBooleanOp(word),
                })
        }),
{
    reveal_strlit("boolean");
    reveal_strlit("OR");
    reveal_strlit("AND");
    reveal_strlit("XOR");
    assert("OR"@.len() != "AND"@.len());
    assert("OR"@.len() != "XOR"@.len());
    assert("AND"@[0] != "XOR"@[0]);
    lemma_command_names_distinct();
    lemma_named_line_not_blank(line);
}

/// The name by which a transform list writes each function.
pub open spec fn kind_name(k: TransformKind) -> Seq<char> {
    match k {
        TransformKind::Matrix => "matrix"@,
        TransformKind::Translate => "translate"@,
        TransformKind::Scale => "scale"@,
        TransformKind::Rotate => "rotate"@,
        TransformKind::SkewX => "skewX"@,
        TransformKind::SkewY => "skewY"@,
    }
}

/// Whether `n` arguments suit the function: six for `matrix`, one or two for `translate`
/// and `scale`, one to three for `rotate`, one for each skew.
pub open spec fn args_fit(k: TransformKind, n: nat) -> bool {
    match k {
        TransformKind::Matrix => n == 6,
        TransformKind::Translate => 1 <= n <= 2,
        TransformKind::Scale => 1 <= n <= 2,
        TransformKind::Rotate => 1 <= n <= 3,
        TransformKind::SkewX => n == 1,
        TransformKind::SkewY => n == 1,
    }
}

/// Each transform function is handed on as the kind that its name names, exactly where it
/// has a number of arguments that suits it; a name that is no function's is refused and
/// named in the error.
pub proof fn lemma_transform_kind_names(name: Seq<char>, n: nat, k: TransformKind)
    ensures
        transform_kind(name, n) == Ok::<TransformKind, ErrorView>(k) <==> (name == kind_name(k) && args_fit(k, n)),
        (name != "matrix"@ && name != "translate"@ && name != "scale"@ && name != "rotate"@ && name != "skewX"@ && name != "skewY"@) ==> transform_kind(name, n) == Err::<TransformKind, ErrorView>(ErrorView::UnsupportedTransform(name)),
{
    reveal_strlit("matrix");
    reveal_strlit("translate");
    reveal_strlit("scale");
    reveal_strlit("rotate");
    reveal_strlit("skewX");
    reveal_strlit("skewY");
    assert("matrix"@.len() != "translate"@.len());
    assert("matrix"@.len() != "scale"@.len());
    assert("matrix"@[0] != "rotate"@[0]);
    assert("matrix"@.len() != "skewX"@.len());
    assert("matrix"@.len() != "skewY"@.len());
    assert("translate"@.len() != "scale"@.len());
    assert("translate"@.len() != "rotate"@.len());
    assert("translate"@.len() != "skewX"@.len());
    assert("translate"@.len() != "skewY"@.len());
    assert("scale"@.len() != "rotate"@.len());
    assert("scale"@[1] != "skewX"@[1]);
    assert("scale"@[1] != "skewY"@[1]);
    assert("rotate"@.len() != "skewX"@.len());
    assert("rotate"@.len() != "skewY"@.len());
    assert("skewX"@[4] != "skewY"@[4]);
}

/// A `transform` line hands on the functions that its data writes up to the first refused
/// one; it is accepted exactly where none is refused. The waiting stroke is drawn first,
/// accepted or not, and the functions before a refused one are applied all the same.
pub proof fn lemma_transform_line(line: Seq<char>, pending: Option<StrokeStyleView>, paths_empty: bool)
    requires
        command_parts(line).0 == "transform"@,
    ensures
        ({
            let parsed = svg_transform(command_parts(line).1);
            &&& parsed.error is None ==> canvas_step(line, pending, paths_empty)
                == Ok::<CanvasStepView, RefusalView>(CanvasStepView {
                    draw: pending,
                    action: CanvasActionView::Transform(parsed.ops),
                    pending: None,
                })
            &&& parsed.error matches Some(e) ==> canvas_step(line, pending, paths_empty)
                == Err::<CanvasStepView, RefusalView>(RefusalView {
                    draw: pending,
                    action: CanvasActionView::Transform(parsed.ops),
                    error: e,
                })
        }),
{
    reveal_strlit("transform");
    lemma_command_names_distinct();
    lemma_named_line_not_blank(line);
}

/// How a flag field writes `b`.
pub open spec fn flag_word(b: bool) -> Seq<char> {
    if b {
        "1"@
    } else {
        "0"@
    }
}

/// The column of a horizontal alignment: left, center, right.
pub open spec fn column_of(h: HorizontalAlign) -> int {
    match h {
        HorizontalAlign::Left => 0,
        HorizontalAlign::Center => 1,
        HorizontalAlign::Right => 2,
    }
}

/// The row of a vertical alignment: top, middle, bottom.
pub open spec fn row_of(v: VerticalAlign) -> int {
    match v {
        VerticalAlign::Top => 0,
        VerticalAlign::Middle => 1,
        VerticalAlign::Bottom => 2,
    }
}

/// The data of `text_path` is cut at its first ten tabs: x, y, size, letter spacing, line
/// spacing, font name, bold, italic, separate paths, then either the text, or the
/// alignment index and the text (which keeps any further tabs). Each number is handed on
/// as written, each flag is `0` or `1`, the text is unescaped, and the alignment index is
/// `column + 3 * row` (top left where there is none). Fewer than ten fields are refused
/// with their count.
pub proof fn lemma_text_path_fields(data: Seq<char>)
    ensures
        ({
            let f = splitn(data, 11, '\t');
            &&& f.len() < 10 ==> text_path_command(data) == Err::<TextPathCommandView, ErrorView>(ErrorView::TextFieldCount(f.len() as usize))
            &&& text_path_command(data) matches Ok(c) ==> {
                &&& f.len() >= 10
                &&& c.x == f[0] && c.y == f[1] && c.size == f[2]
                &&& c.letter_spacing == f[3] && c.line_spacing == f[4] && c.font_name == f[5]
                &&& flag_word(c.bold) == f[6] && flag_word(c.italic) == f[7] && flag_word(c.separate_paths) == f[8]
                &&& f.len() == 10 ==> unescape(f[9]) == Ok::<Seq<char>, ErrorView>(c.text)
                    && column_of(c.align.horizontal) == 0 && row_of(c.align.vertical) == 0
                &&& f.len() >= 11 ==> unescape(f[10]) == Ok::<Seq<char>, ErrorView>(c.text)
                    && unsigned_value(f[9], 10, usize::MAX as int)
                        == Some(column_of(c.align.horizontal) + 3 * row_of(c.align.vertical))
            }
        }),
{
    reveal_strlit("0");
    reveal_strlit("1");
}

/// The number that digits write is not negative.
proof fn lemma_radix_value_nonnegative(s: Seq<char>, radix: int)
    requires
        radix > 0,
        all_radix_digits(s, radix),
    ensures
        radix_value(s, radix) >= 0,
    decreases s.len(),
{
    if s.len() > 0 {
        assert(char_digit(s[s.len() - 1], radix) >= 0);
        assert(all_radix_digits(s.drop_last(), radix)) by {
            assert forall|i: int| 0 <= i < s.drop_last().len() implies char_digit(#[trigger] s.drop_last()[i], radix) >= 0 by {
                assert(s.drop_last()[i] == s[i]);
            }
        }
        lemma_radix_value_nonnegative(s.drop_last(), radix);
        assert(radix_value(s.drop_last(), radix) * radix >= 0) by (nonlinear_arith)
            requires
                radix_value(s.drop_last(), radix) >= 0,
                radix > 0,
        ;
    }
}

/// A color is written as the hexadecimal number `0xRRGGBB` (with or without `#`, with
/// whitespace around): red, green and blue are its three low bytes, high to low, and the
/// color is opaque. A text that writes no such number is refused as it is.
pub proof fn lemma_hex_color_channels(value: Seq<char>)
    ensures
        hex_color(value) is Ok <==> unsigned_value(strip_hash(trim(value)), 16, u32::MAX as int) is Some,
        hex_color(value) matches Err(e) ==> e == ErrorView::InvalidColor(value),
        hex_color(value) matches Ok(c) ==> {
            &&& c.a == 255
            &&& unsigned_value(strip_hash(trim(value)), 16, u32::MAX as int) matches Some(n)
                && c.r * 0x1_0000 + c.g * 0x100 + c.b == n % 0x100_0000
        },
{
    if let Some(n) = unsigned_value(strip_hash(trim(value)), 16, u32::MAX as int) {
        lemma_radix_value_nonnegative(crate::number::strip_plus(strip_hash(trim(value))), 16);
        let x = n as u32;
        assert(x == n);
        assert(((x >> 16u32) & 0xffu32) as u8 as u32 * 0x1_0000u32 + ((x >> 8u32) & 0xffu32) as u8 as u32 * 0x100u32
            + (x & 0xffu32) as u8 as u32 == x % 0x100_0000u32) by (bit_vector);
    }
}

/// `fill: color opacity`: the first token is the color, the second the opacity (1 where it
/// is missing). Refused where there is no token, or where the color or the opacity is
/// not one.
pub proof fn lemma_fill_color_fields(data: Seq<char>)
    ensures
        ({
            let t = split_ws(data);
            &&& t.len() == 0 ==> fill_color(data) == Err::<FillColorView, ErrorView>(ErrorView::InvalidInput("fill color is missing"@))
            &&& fill_color(data) is Ok <==> (t.len() > 0 && hex_color(t[0]) is Ok && number_ok(t, 1))
            &&& fill_color(data) matches Ok(c) ==> hex_color(t[0]) == Ok::<Color, ErrorView>(c.color) && c.opacity == number_at(t, 1, 1)
        }),
{
}

/// A `fill` line draws the waiting stroke first. Over paths it fills them with the color
/// that its data writes; over no paths it does nothing more, whatever its data.
pub proof fn lemma_fill_line(line: Seq<char>, pending: Option<StrokeStyleView>, paths_empty: bool)
    requires
        command_parts(line).0 == "fill"@,
    ensures
        ({
            let data = command_parts(line).1;
            &&& paths_empty ==> canvas_step(line, pending, paths_empty) == Ok::<CanvasStepView, RefusalView>(
                CanvasStepView { draw: pending, action: CanvasActionView::Keep, pending: None },
            )
            &&& !paths_empty ==> match fill_color(data) {
                Ok(c) => canvas_step(line, pending, paths_empty) == Ok::<CanvasStepView, RefusalView>(
                    CanvasStepView { draw: pending, action: CanvasActionView::Fill(c), pending: None },
                ),
                Err(e) => canvas_step(line, pending, paths_empty) == Err::<CanvasStepView, RefusalView>(
                    RefusalView { draw: pending, action: CanvasActionView::Keep, error: e },
                ),
            }
        }),
{
    reveal_strlit("fill");
    lemma_command_names_distinct();
    lemma_named_line_not_blank(line);
}

/// The number by which a stroke writes each cap.
pub open spec fn cap_number(c: Cap) -> i32 {
    match c {
        Cap::Butt => 0,
        Cap::Square => 1,
        Cap::Round => 2,
    }
}

/// The number by which a stroke writes each join.
pub open spec fn join_number(j: Join) -> i32 {
    match j {
        Join::Miter => 0,
        Join::Round => 1,
        Join::Bevel => 2,
    }
}

/// The tokens of a stroke from `i` on (right after its dash part) are acceptable: a dash
/// phase, a cap (0 to 2), a join (0 to 2), a miter limit, then either no trim or all three
/// trim numbers, then an opacity; each optional, each a number of its kind.
pub open spec fn stroke_tail_ok(t: Seq<Seq<char>>, i: int) -> bool {
    &&& number_ok(t, i)
    &&& integer_ok(t, i + 1) && 0 <= integer_at(t, i + 1, 0) <= 2
    &&& integer_ok(t, i + 2) && 0 <= integer_at(t, i + 2, 0) <= 2
    &&& number_ok(t, i + 3)
    &&& (t.len() <= i + 4 || t.len() >= i + 7)
    &&& number_ok(t, i + 4) && number_ok(t, i + 5) && number_ok(t, i + 6)
    &&& number_ok(t, i + 7)
}

/// The stroke `s` has the fields that the tokens from `i` on write, each token in its
/// place or its default where the tokens end: dash phase (0), cap (0), join (0), miter
/// limit (4), trim start, stop and overlap (none where the tokens end first), opacity (1).
pub open spec fn stroke_tail_is(t: Seq<Seq<char>>, i: int, s: StrokeStyleView) -> bool {
    &&& s.dash_phase == number_at(t, i, 0)
    &&& cap_number(s.cap) == integer_at(t, i + 1, 0)
    &&& join_number(s.join) == integer_at(t, i + 2, 0)
    &&& s.miter_limit == number_at(t, i + 3, 4)
    &&& t.len() <= i + 4 ==> s.trim is None
    &&& t.len() > i + 4 ==> s.trim == Some(TrimEffectView {
        start: number_at(t, i + 4, 0),
        stop: number_at(t, i + 5, 1),
        overlap: number_at(t, i + 6, 1),
    })
    &&& s.opacity == number_at(t, i + 7, 1)
}

/// A stroke that is not dashed and has no braces at its fourth token: `color width 0
/// phase cap join miter trim_start trim_stop trim_overlap opacity`. The color is the
/// first token, the width the second (4), there is no dash pattern, and the other fields
/// follow from the fourth token on. It is accepted exactly where each token is a number
/// of its kind.
pub proof fn lemma_stroke_fields_undashed(data: Seq<char>)
    requires
        integer_at(split_ws(data), 2, 0) == 0,
        !(3 < split_ws(data).len() && (split_ws(data)[3] == "{"@ || split_ws(data)[3] == "{}"@)),
    ensures
        ({
            let t = split_ws(data);
            &&& stroke_style(data) is Ok <==> (t.len() > 0 && hex_color(t[0]) is Ok && number_ok(t, 1)
                && integer_ok(t, 2) && stroke_tail_ok(t, 3))
            &&& stroke_style(data) matches Ok(s) ==> {
                &&& hex_color(t[0]) == Ok::<Color, ErrorView>(s.color)
                &&& s.width == number_at(t, 1, 4)
                &&& s.dash_intervals is None
                &&& stroke_tail_is(t, 3, s)
            }
        }),
{
}

/// The numbers of a dash pattern from `j` up to the `}` at `k` are handed on as written,
/// where each is a number.
proof fn lemma_dash_numbers(t: Seq<Seq<char>>, j: int, k: int)
    requires
        0 <= j <= k < t.len(),
        t[k] == "}"@,
        forall|m: int| j <= m < k ==> t[m] != "}"@,
    ensures
        dash_numbers(t, j) is Ok <==> (forall|m: int| j <= m < k ==> is_float_literal(#[trigger] t[m])),
        dash_numbers(t, j) is Ok ==> dash_numbers(t, j) == Ok::<(Seq<Seq<char>>, int), ErrorView>((t.subrange(j, k), k + 1)),
    decreases k - j,
{
    if j < k {
        lemma_dash_numbers(t, j + 1, k);
        if dash_numbers(t, j + 1) is Ok && is_float_literal(t[j]) {
            assert(seq![t[j]] + t.subrange(j + 1, k) =~= t.subrange(j, k));
        }
    } else {
        assert(t.subrange(j, k) =~= Seq::<Seq<char>>::empty());
    }
}

/// A dashed stroke whose pattern is `{ n1 n2 ... }` with its `}` at token `k`: the pattern
/// is the numbers between the braces, as written, and the other fields follow from the
/// token after the `}` on. It is accepted exactly where each token is a number of its kind.
pub proof fn lemma_stroke_fields_dashed(data: Seq<char>, k: int)
    requires
        integer_ok(split_ws(data), 2),
        integer_at(split_ws(data), 2, 0) != 0,
        4 <= k < split_ws(data).len(),
        split_ws(data)[3] == "{"@,
        split_ws(data)[k] == "}"@,
        forall|m: int| 4 <= m < k ==> split_ws(data)[m] != "}"@,
    ensures
        ({
            let t = split_ws(data);
            &&& stroke_style(data) is Ok <==> (hex_color(t[0]) is Ok && number_ok(t, 1)
                && (forall|m: int| 4 <= m < k ==> is_float_literal(#[trigger] t[m]))
                && stroke_tail_ok(t, k + 1))
            &&& stroke_style(data) matches Ok(s) ==> {
                &&& hex_color(t[0]) == Ok::<Color, ErrorView>(s.color)
                &&& s.width == number_at(t, 1, 4)
                &&& s.dash_intervals == Some(t.subrange(4, k))
                &&& stroke_tail_is(t, k + 1, s)
            }
        }),
{
    reveal_strlit("{");
    reveal_strlit("{}");
    assert("{"@ != "{}"@) by {
        assert("{"@.len() != "{}"@.len());
    }
    lemma_dash_numbers(split_ws(data), 4, k);
}

/// A `path` line draws the waiting stroke and adds the path that its data writes, as
/// written (skia reads the SVG path data).
pub proof fn lemma_path_line(line: Seq<char>, pending: Option<StrokeStyleView>, paths_empty: bool)
    requires
        command_parts(line).0 == "path"@,
    ensures
        canvas_step(line, pending, paths_empty) == Ok::<CanvasStepView, RefusalView>(CanvasStepView {
            draw: pending,
            action: CanvasActionView::CreatePath(command_parts(line).1),
            pending: None,
        }),
{
    reveal_strlit("path");
    lemma_command_names_distinct();
    lemma_named_line_not_blank(line);
}

/// A `text_path` line draws the waiting stroke, accepted or not, and adds the outlines of
/// the text that its data describes; it is refused exactly where that data is.
pub proof fn lemma_text_path_line(line: Seq<char>, pending: Option<StrokeStyleView>, paths_empty: bool)
    requires
        command_parts(line).0 == "text_path"@,
    ensures
        match text_path_command(command_parts(line).1) {
            Ok(c) => canvas_step(line, pending, paths_empty) == Ok::<CanvasStepView, RefusalView>(CanvasStepView {
                draw: pending,
                action: CanvasActionView::CreateTextPaths(c),
                pending: None,
            }),
            Err(e) => canvas_step(line, pending, paths_empty) == Err::<CanvasStepView, RefusalView>(RefusalView {
                draw: pending,
                action: CanvasActionView::Keep,
                error: e,
            }),
        },
{
    reveal_strlit("text_path");
    lemma_command_names_distinct();
    lemma_named_line_not_blank(line);
}

/// A `simplify` line draws the waiting stroke and simplifies the paths, whatever its data.
pub proof fn lemma_simplify_line(line: Seq<char>, pending: Option<StrokeStyleView>, paths_empty: bool)
    requires
        command_parts(line).0 == "simplify"@,
    ensures
        canvas_step(line, pending, paths_empty) == Ok::<CanvasStepView, RefusalView>(CanvasStepView {
            draw: pending,
            action: CanvasActionView::Simplify,
            pending: None,
        }),
{
    reveal_strlit("simplify");
    lemma_command_names_distinct();
    lemma_named_line_not_blank(line);
}

/// A `stroke_to_path` line turns the waiting stroke into the paths, drawing nothing and
/// leaving no stroke waiting; where no stroke waits it does nothing.
pub proof fn lemma_stroke_to_path_line(line: Seq<char>, pending: Option<StrokeStyleView>, paths_empty: bool)
    requires
        command_parts(line).0 == "stroke_to_path"@,
    ensures
        match pending {
            Some(s) => canvas_step(line, pending, paths_empty) == Ok::<CanvasStepView, RefusalView>(CanvasStepView {
                draw: None,
                action: CanvasActionView::StrokeToPaths(s),
                pending: None,
            }),
            None => canvas_step(line, pending, paths_empty) == Ok::<CanvasStepView, RefusalView>(CanvasStepView {
                draw: None,
                action: CanvasActionView::Keep,
                pending: None,
            }),
        },
{
    reveal_strlit("stroke_to_path");
    lemma_command_names_distinct();
    lemma_named_line_not_blank(line);
}

/// A line splits at its first `:`: the name is what stands before it, trimmed, and the data
/// what follows it, without its leading spaces. A line without `:` is a name alone.
pub proof fn lemma_command_parts_split(name: Seq<char>, data: Seq<char>)
    requires
        !name.contains(':'),
    ensures
        command_parts(name + seq![':'] + data) == (trim(name), trim_start_spaces(data)),
        command_parts(name) == (trim(name), Seq::<char>::empty()),
{
    let line = name + seq![':'] + data;
    assert forall|j: int| 0 <= j < name.len() implies #[trigger] not_char(':')(line[j]) by {
        assert(line[j] == name[j]);
        if name[j] == ':' {
            assert(name.contains(':'));
        }
    }
    lemma_prefix_while_is(line, not_char(':'), name.len() as int);
    assert(line.take(name.len() as int) =~= name);
    assert(line.skip(name.len() + 1int) =~= data);
    assert forall|j: int| 0 <= j < name.len() implies #[trigger] not_char(':')(name[j]) by {
        if name[j] == ':' {
            assert(name.contains(':'));
        }
    }
    lemma_prefix_while_is(name, not_char(':'), name.len() as int);
}

} // verus!

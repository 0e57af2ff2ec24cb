//! The command language of the canvas: one command per line, `name: data`. A step reads
//! one line, given the stroke that waits to be drawn and whether there are paths, and says
//! what the program that draws does: which stroke it draws first, what it does with the
//! paths, and which stroke then waits.
use vstd::prelude::*;
use crate::chars::{
    is_char, lemma_prefix_while_facts, lemma_trim_idempotent, prefix_while, chars_eq, chars_of, find_char, index_of, lines, lines_chars, split_ws,
    split_whitespace_chars, string_from, string_of, sub_chars, trim, trim_chars,
    trim_start_spaces, trim_start_spaces_chars,
};
use crate::error::{result_view, ErrorView, InputError};
use crate::number::{is_float_literal, FloatLiteral};
use crate::path::{boolean_op, parse_boolean_op, BooleanOp};
use crate::stroke::{parse_stroke_data, stroke_style, StrokeStyle, StrokeStyleView};
use crate::text::{parse_text_path_command, text_path_command, TextPathCommand, TextPathCommandView};
use crate::transform::{ops_view, parse_svg_transform, svg_transform, ParsedTransforms, TransformOp, TransformOpView};
use crate::util::{
    fill_color, optional_f32, optional_i32, parse_fill_color, parse_optional_f32,
    parse_optional_i32, F32Arg, F32ArgView, FillColor, FillColorView,
};

verus! {

/// The name and the data of a command line: what stands before the first `:`, trimmed,
/// and what follows it, without leading spaces; a line without `:` is a name alone.
pub open spec fn command_parts(command: Seq<char>) -> (Seq<char>, Seq<char>) {
    let k = index_of(command, ':');
    if k < command.len() {
        (trim(command.take(k as int)), trim_start_spaces(command.skip(k + 1int)))
    } else {
        (trim(command), Seq::empty())
    }
}

/// The name and the data of the command line `v`.
fn command_parts_chars(v: &[char]) -> (r: (Vec<char>, Vec<char>))
    ensures
        (r.0@, r.1@) == command_parts(v@),
{
    assert(v@.skip(0) =~= v@);
    let k: usize = find_char(v, 0, ':');
    if k < v.len() {
        let name: Vec<char> = trim_chars(&sub_chars(v, 0, k));
        let data: Vec<char> = trim_start_spaces_chars(&sub_chars(v, k + 1, v.len()));
        assert(v@.subrange(0, k as int) =~= v@.take(k as int));
        assert(v@.subrange(k + 1, v@.len() as int) =~= v@.skip(k + 1));
        (name, data)
    } else {
        (trim_chars(v), Vec::new())
    }
}

/// The name and the data of the command line `command`.
pub fn parse_command(command: &str) -> (r: (String, String))
    ensures
        (r.0@, r.1@) == command_parts(command@),
{
    let v: Vec<char> = chars_of(command);
    let (name, data) = command_parts_chars(&v);
    (string_of(name), string_of(data))
}

/// The lines of the command text, as `str::lines` cuts it.
pub fn command_lines(commands: &str) -> (r: Vec<Vec<char>>)
    ensures
        r.deep_view() == lines(commands@),
{
    let v: Vec<char> = chars_of(commands);
    lines_chars(&v)
}

/// What the program that draws does with the paths.
#[derive(Debug, PartialEq, Eq)]
pub enum CanvasAction {
    /// Nothing.
    Keep,
    /// Adds the path of the SVG path data (`Path::from_svg`; an error where skia rejects it).
    CreatePath(String),
    /// Adds the outlines of a text.
    CreateTextPaths(TextPathCommand),
    /// Applies the transform functions to the canvas, in order.
    Transform(Vec<TransformOp>),
    /// Replaces the paths by their outlines under the stroke.
    StrokeToPaths(StrokeStyle),
    /// Replaces the paths by their combination.
    Boolean(BooleanOp),
    /// Rounds the corners of the paths with the radius.
    Round(FloatLiteral),
    /// Simplifies each path.
    Simplify,
    /// Replaces the paths by sketches of them.
    PathNoise { segment_length: F32Arg, deviation: F32Arg, seed: u32, sketch_count: usize },
    /// Copies the paths along a line with a turn.
    DuplicateArray {
        count: usize,
        dx: F32Arg,
        dy: F32Arg,
        rotation: F32Arg,
        pivot_x: F32Arg,
        pivot_y: F32Arg,
        separate_copies: bool,
    },
    /// Copies the paths onto a grid.
    DuplicateGrid {
        width: F32Arg,
        height: F32Arg,
        x_count: usize,
        y_count: usize,
        column_order: bool,
        separate_copies: bool,
    },
    /// Copies the paths to pseudo-random places.
    DuplicateRandom {
        count: usize,
        spread_x: F32Arg,
        spread_y: F32Arg,
        seed: u32,
        separate_copies: bool,
    },
    /// Moves, scales and turns each path.
    PathTransform {
        dx: F32Arg,
        dy: F32Arg,
        scale: F32Arg,
        rotation: F32Arg,
        pivot_x: F32Arg,
        pivot_y: F32Arg,
    },
    /// Fills each path with the color.
    Fill(FillColor),
}

/// `CanvasAction` with its texts and numbers as character sequences.
pub enum CanvasActionView {
    Keep,
    CreatePath(Seq<char>),
    CreateTextPaths(TextPathCommandView),
    Transform(Seq<TransformOpView>),
    StrokeToPaths(StrokeStyleView),
    Boolean(BooleanOp),
    Round(Seq<char>),
    Simplify,
    PathNoise { segment_length: F32ArgView, deviation: F32ArgView, seed: u32, sketch_count: usize },
    DuplicateArray {
        count: usize,
        dx: F32ArgView,
        dy: F32ArgView,
        rotation: F32ArgView,
        pivot_x: F32ArgView,
        pivot_y: F32ArgView,
        separate_copies: bool,
    },
    DuplicateGrid {
        width: F32ArgView,
        height: F32ArgView,
        x_count: usize,
        y_count: usize,
        column_order: bool,
        separate_copies: bool,
    },
    DuplicateRandom {
        count: usize,
        spread_x: F32ArgView,
        spread_y: F32ArgView,
        seed: u32,
        separate_copies: bool,
    },
    PathTransform {
        dx: F32ArgView,
        dy: F32ArgView,
        scale: F32ArgView,
        rotation: F32ArgView,
        pivot_x: F32ArgView,
        pivot_y: F32ArgView,
    },
    Fill(FillColorView),
}

impl View for CanvasAction {
    type V = CanvasActionView;

    open spec fn view(&self) -> CanvasActionView {
        match self {
            CanvasAction::Keep => CanvasActionView::Keep,
            CanvasAction::CreatePath(d) => CanvasActionView::CreatePath(d@),
            CanvasAction::CreateTextPaths(c) => CanvasActionView::CreateTextPaths(c@),
            CanvasAction::Transform(ops) => CanvasActionView::Transform(ops_view(ops@)),
            CanvasAction::StrokeToPaths(s) => CanvasActionView::StrokeToPaths(s@),
            CanvasAction::Boolean(op) => CanvasActionView::Boolean(*op),
            CanvasAction::Round(r) => CanvasActionView::Round(r@),
            CanvasAction::Simplify => CanvasActionView::Simplify,
            CanvasAction::PathNoise { segment_length, deviation, seed, sketch_count } => CanvasActionView::PathNoise {
                segment_length: segment_length@,
                deviation: deviation@,
                seed: *seed,
                sketch_count: *sketch_count,
            },
            CanvasAction::DuplicateArray { count, dx, dy, rotation, pivot_x, pivot_y, separate_copies } => CanvasActionView::DuplicateArray {
                count: *count,
                dx: dx@,
                dy: dy@,
                rotation: rotation@,
                pivot_x: pivot_x@,
                pivot_y: pivot_y@,
                separate_copies: *separate_copies,
            },
            CanvasAction::DuplicateGrid { width, height, x_count, y_count, column_order, separate_copies } => CanvasActionView::DuplicateGrid {
                width: width@,
                height: height@,
                x_count: *x_count,
                y_count: *y_count,
                column_order: *column_order,
                separate_copies: *separate_copies,
            },
            CanvasAction::DuplicateRandom { count, spread_x, spread_y, seed, separate_copies } => CanvasActionView::DuplicateRandom {
                count: *count,
                spread_x: spread_x@,
                spread_y: spread_y@,
                seed: *seed,
                separate_copies: *separate_copies,
            },
            CanvasAction::PathTransform { dx, dy, scale, rotation, pivot_x, pivot_y } => CanvasActionView::PathTransform {
                dx: dx@,
                dy: dy@,
                scale: scale@,
                rotation: rotation@,
                pivot_x: pivot_x@,
                pivot_y: pivot_y@,
            },
            CanvasAction::Fill(c) => CanvasActionView::Fill(c@),
        }
    }
}

/// What one line makes the program that draws do: draw `draw` over the paths first,
/// then do `action`; afterwards `pending` is the stroke that waits.
#[derive(Debug, PartialEq, Eq)]
pub struct CanvasStep {
    pub draw: Option<StrokeStyle>,
    pub action: CanvasAction,
    pub pending: Option<StrokeStyle>,
}

/// `CanvasStep` taken by its views.
pub struct CanvasStepView {
    pub draw: Option<StrokeStyleView>,
    pub action: CanvasActionView,
    pub pending: Option<StrokeStyleView>,
}

/// The views of an optional stroke.
pub open spec fn stroke_opt_view(s: Option<StrokeStyle>) -> Option<StrokeStyleView> {
    match s {
        Some(s) => Some(s@),
        None => None,
    }
}

impl View for CanvasStep {
    type V = CanvasStepView;

    open spec fn view(&self) -> CanvasStepView {
        CanvasStepView {
            draw: stroke_opt_view(self.draw),
            action: self.action@,
            pending: stroke_opt_view(self.pending),
        }
    }
}

/// What a refused line makes the program that draws do before it reports `error`: draw
/// `draw` over the paths, then do `action` (nothing, or the transform functions written
/// before the refused one).
#[derive(Debug, PartialEq, Eq)]
pub struct Refusal {
    pub draw: Option<StrokeStyle>,
    pub action: CanvasAction,
    pub error: InputError,
}

/// `Refusal` taken by its views.
pub struct RefusalView {
    pub draw: Option<StrokeStyleView>,
    pub action: CanvasActionView,
    pub error: ErrorView,
}

impl View for Refusal {
    type V = RefusalView;

    open spec fn view(&self) -> RefusalView {
        RefusalView { draw: stroke_opt_view(self.draw), action: self.action@, error: self.error@ }
    }
}

/// The refusal in which the waiting stroke is drawn and nothing more is done.
pub open spec fn refusal(pending: Option<StrokeStyleView>, error: ErrorView) -> RefusalView {
    RefusalView { draw: pending, action: CanvasActionView::Keep, error }
}

/// A count argument: the integer, at least 1.
pub open spec fn at_least_one(n: i32) -> usize {
    if n < 1 {
        1
    } else {
        n as usize
    }
}

/// The step in which the waiting stroke is drawn and `action` follows.
pub open spec fn then_act(pending: Option<StrokeStyleView>, action: CanvasActionView) -> CanvasStepView {
    CanvasStepView { draw: pending, action, pending: None }
}

/// The step in which nothing happens.
pub open spec fn no_step(pending: Option<StrokeStyleView>) -> CanvasStepView {
    CanvasStepView { draw: None, action: CanvasActionView::Keep, pending }
}

/// The arguments of `path_noise`: segment length (8), deviation (2), seed (0) and sketch
/// count (1, at least 1).
pub open spec fn noise_action(t: Seq<Seq<char>>) -> Result<CanvasActionView, ErrorView> {
    match optional_f32(t, 0, 8, "noise segment length"@) {
        Err(e) => Err(e),
        Ok(segment_length) => match optional_f32(t, 1, 2, "noise deviation"@) {
            Err(e) => Err(e),
            Ok(deviation) => match optional_i32(t, 2, 0, "noise seed"@) {
                Err(e) => Err(e),
                Ok(seed) => match optional_i32(t, 3, 1, "noise sketch count"@) {
                    Err(e) => Err(e),
                    Ok(n) => Ok(
                        CanvasActionView::PathNoise {
                            segment_length,
                            deviation,
                            seed: seed as u32,
                            sketch_count: at_least_one(n),
                        },
                    ),
                },
            },
        },
    }
}

/// The arguments of `path_duplicate_array`: count (2, at least 1), x and y offsets (0),
/// rotation offset (0), rotation pivot (0, 0), separate copies (1).
pub open spec fn array_action(t: Seq<Seq<char>>) -> Result<CanvasActionView, ErrorView> {
    match optional_i32(t, 0, 2, "array count"@) {
        Err(e) => Err(e),
        Ok(n) => match optional_f32(t, 1, 0, "array x offset"@) {
            Err(e) => Err(e),
            Ok(dx) => match optional_f32(t, 2, 0, "array y offset"@) {
                Err(e) => Err(e),
                Ok(dy) => match optional_f32(t, 3, 0, "array rotation offset"@) {
                    Err(e) => Err(e),
                    Ok(rotation) => match optional_f32(t, 4, 0, "array rotation pivot x"@) {
                        Err(e) => Err(e),
                        Ok(pivot_x) => match optional_f32(t, 5, 0, "array rotation pivot y"@) {
                            Err(e) => Err(e),
                            Ok(pivot_y) => match optional_i32(t, 6, 1, "array separate copies"@) {
                                Err(e) => Err(e),
                                Ok(sep) => Ok(
                                    CanvasActionView::DuplicateArray {
                                        count: at_least_one(n),
                                        dx,
                                        dy,
                                        rotation,
                                        pivot_x,
                                        pivot_y,
                                        separate_copies: sep != 0,
                                    },
                                ),
                            },
                        },
                    },
                },
            },
        },
    }
}

/// The arguments of `path_duplicate_grid`: width and height (200), x and y counts (3, at
/// least 1), column order (0), separate copies (1).
pub open spec fn grid_action(t: Seq<Seq<char>>) -> Result<CanvasActionView, ErrorView> {
    match optional_f32(t, 0, 200, "grid width"@) {
        Err(e) => Err(e),
        Ok(width) => match optional_f32(t, 1, 200, "grid height"@) {
            Err(e) => Err(e),
            Ok(height) => match optional_i32(t, 2, 3, "grid x count"@) {
                Err(e) => Err(e),
                Ok(x) => match optional_i32(t, 3, 3, "grid y count"@) {
                    Err(e) => Err(e),
                    Ok(y) => match optional_i32(t, 4, 0, "grid order"@) {
                        Err(e) => Err(e),
                        Ok(order) => match optional_i32(t, 5, 1, "grid separate copies"@) {
                            Err(e) => Err(e),
                            Ok(sep) => Ok(
                                CanvasActionView::DuplicateGrid {
                                    width,
                                    height,
                                    x_count: at_least_one(x),
                                    y_count: at_least_one(y),
                                    column_order: order != 0,
                                    separate_copies: sep != 0,
                                },
                            ),
                        },
                    },
                },
            },
        },
    }
}

/// The arguments of `path_duplicate_random`: count (10, at least 1), x and y spreads
/// (400), seed (0), separate copies (1).
pub open spec fn random_action(t: Seq<Seq<char>>) -> Result<CanvasActionView, ErrorView> {
    match optional_i32(t, 0, 10, "random count"@) {
        Err(e) => Err(e),
        Ok(n) => match optional_f32(t, 1, 400, "random x spread"@) {
            Err(e) => Err(e),
            Ok(spread_x) => match optional_f32(t, 2, 400, "random y spread"@) {
                Err(e) => Err(e),
                Ok(spread_y) => match optional_i32(t, 3, 0, "random seed"@) {
                    Err(e) => Err(e),
                    Ok(seed) => match optional_i32(t, 4, 1, "random separate copies"@) {
                        Err(e) => Err(e),
                        Ok(sep) => Ok(
                            CanvasActionView::DuplicateRandom {
                                count: at_least_one(n),
                                spread_x,
                                spread_y,
                                seed: seed as u32,
                                separate_copies: sep != 0,
                            },
                        ),
                    },
                },
            },
        },
    }
}

/// The arguments of `path_transform`: x and y offsets (0), scale (1), rotation (0),
/// pivot (0, 0).
pub open spec fn path_transform_action(t: Seq<Seq<char>>) -> Result<CanvasActionView, ErrorView> {
    match optional_f32(t, 0, 0, "path transform x offset"@) {
        Err(e) => Err(e),
        Ok(dx) => match optional_f32(t, 1, 0, "path transform y offset"@) {
            Err(e) => Err(e),
            Ok(dy) => match optional_f32(t, 2, 1, "path transform scale"@) {
                Err(e) => Err(e),
                Ok(scale) => match optional_f32(t, 3, 0, "path transform rotation"@) {
                    Err(e) => Err(e),
                    Ok(rotation) => match optional_f32(t, 4, 0, "path transform pivot x"@) {
                        Err(e) => Err(e),
                        Ok(pivot_x) => match optional_f32(t, 5, 0, "path transform pivot y"@) {
                            Err(e) => Err(e),
                            Ok(pivot_y) => Ok(
                                CanvasActionView::PathTransform {
                                    dx,
                                    dy,
                                    scale,
                                    rotation,
                                    pivot_x,
                                    pivot_y,
                                },
                            ),
                        },
                    },
                },
            },
        },
    }
}

/// The radius of `round`: the trimmed data as an `f32`.
pub open spec fn round_action(data: Seq<char>) -> Result<CanvasActionView, ErrorView> {
    if is_float_literal(trim(data)) {
        Ok(CanvasActionView::Round(trim(data)))
    } else {
        Err(ErrorView::NotANumber { name: "round radius"@, value: data })
    }
}

/// The step after an action that draws the waiting stroke first, whether the action is
/// accepted or refused.
pub open spec fn acting(pending: Option<StrokeStyleView>, action: Result<CanvasActionView, ErrorView>) -> Result<CanvasStepView, RefusalView> {
    match action {
        Ok(a) => Ok(then_act(pending, a)),
        Err(e) => Err(refusal(pending, e)),
    }
}

/// What the line `line` makes the program that draws do, where `pending` waits to be
/// drawn and `paths_empty` tells whether there are no paths. A refused line says what is
/// done before the error is reported: the commands that draw the waiting stroke before
/// they read their data draw it, and a transform list applies the functions before the
/// refused one.
pub open spec fn canvas_step(line: Seq<char>, pending: Option<StrokeStyleView>, paths_empty: bool) -> Result<CanvasStepView, RefusalView> {
    let (name, data) = command_parts(line);
    if trim(line).len() == 0 {
        Ok(no_step(pending))
    } else if name == "path"@ {
        Ok(then_act(pending, CanvasActionView::CreatePath(data)))
    } else if name == "text_path"@ {
        acting(
            pending,
            match text_path_command(data) {
                Ok(c) => Ok(CanvasActionView::CreateTextPaths(c)),
                Err(e) => Err(e),
            },
        )
    } else if name == "transform"@ {
        let parsed = svg_transform(data);
        match parsed.error {
            None => Ok(then_act(pending, CanvasActionView::Transform(parsed.ops))),
            Some(e) => Err(RefusalView { draw: pending, action: CanvasActionView::Transform(parsed.ops), error: e }),
        }
    } else if name == "stroke"@ {
        if paths_empty {
            Ok(no_step(pending))
        } else {
            match stroke_style(data) {
                Ok(s) => Ok(CanvasStepView { draw: pending, action: CanvasActionView::Keep, pending: Some(s) }),
                Err(e) => Err(RefusalView { draw: None, action: CanvasActionView::Keep, error: e }),
            }
        }
    } else if name == "stroke_to_path"@ {
        match pending {
            Some(s) => Ok(CanvasStepView { draw: None, action: CanvasActionView::StrokeToPaths(s), pending: None }),
            None => Ok(no_step(pending)),
        }
    } else if name == "boolean"@ {
        acting(
            pending,
            match boolean_op(data) {
                Ok(op) => Ok(CanvasActionView::Boolean(op)),
                Err(e) => Err(e),
            },
        )
    } else if name == "round"@ {
        acting(pending, round_action(data))
    } else if name == "simplify"@ {
        Ok(then_act(pending, CanvasActionView::Simplify))
    } else if name == "path_noise"@ {
        acting(pending, noise_action(split_ws(data)))
    } else if name == "path_duplicate_array"@ {
        acting(pending, array_action(split_ws(data)))
    } else if name == "path_duplicate_grid"@ {
        acting(pending, grid_action(split_ws(data)))
    } else if name == "path_duplicate_random"@ {
        acting(pending, random_action(split_ws(data)))
    } else if name == "path_transform"@ {
        acting(pending, path_transform_action(split_ws(data)))
    } else if name == "fill"@ {
        if paths_empty {
            Ok(then_act(pending, CanvasActionView::Keep))
        } else {
            acting(
                pending,
                match fill_color(data) {
                    Ok(c) => Ok(CanvasActionView::Fill(c)),
                    Err(e) => Err(e),
                },
            )
        }
    } else {
        Ok(no_step(pending))
    }
}


/// The name of a command has no whitespace at either end, and its data does not start
/// with a space.
pub proof fn lemma_command_parts_trimmed(command: Seq<char>)
    ensures
        trim(command_parts(command).0) == command_parts(command).0,
        command_parts(command).1.len() > 0 ==> command_parts(command).1[0] != ' ',
{
    let k = index_of(command, ':');
    if k < command.len() {
        lemma_trim_idempotent(command.take(k as int));
        let d = command.skip(k + 1int);
        lemma_prefix_while_facts(d, is_char(' '));
        if trim_start_spaces(d).len() > 0 {
            assert(trim_start_spaces(d)[0] == d[prefix_while(d, is_char(' ')) as int]);
        }
    } else {
        lemma_trim_idempotent(command);
    }
}

/// The stroke that waits is never lost: after a line that is accepted it has been drawn,
/// it still waits, or it has become the paths; a refused line draws it before the error,
/// unless the line is a `stroke` whose data is refused.
pub proof fn lemma_waiting_stroke_not_lost(line: Seq<char>, pending: StrokeStyleView, paths_empty: bool)
    ensures
        canvas_step(line, Some(pending), paths_empty) matches Ok(step) ==> {
            ||| step.draw == Some(pending)
            ||| step.pending == Some(pending)
            ||| step.action == CanvasActionView::StrokeToPaths(pending)
        },
        canvas_step(line, Some(pending), paths_empty) matches Err(refused) ==> {
            ||| refused.draw == Some(pending)
            ||| command_parts(line).0 == "stroke"@
        },
{
}

/// A refused line changes no paths: before its error it at most applies the transform
/// functions written before the refused one.
pub proof fn lemma_refusal_keeps_paths(line: Seq<char>, pending: Option<StrokeStyleView>, paths_empty: bool)
    ensures
        canvas_step(line, pending, paths_empty) matches Err(refused) ==> {
            ||| refused.action == CanvasActionView::Keep
            ||| refused.action is Transform
        },
{
}

/// A stroke waits only over paths: where there are no paths and no stroke waits, no line
/// makes one wait or draws one.
pub proof fn lemma_no_stroke_without_paths(line: Seq<char>)
    ensures
        canvas_step(line, None, true) matches Ok(step) ==> step.pending is None && step.draw is None,
        canvas_step(line, None, true) matches Err(refused) ==> refused.draw is None,
{
}

/// Every line that changes the paths, the canvas or what is painted draws the waiting
/// stroke first and leaves none waiting, and draws it also where its data is refused.
pub proof fn lemma_stroke_drawn_before_change(line: Seq<char>, pending: Option<StrokeStyleView>, paths_empty: bool)
    ensures
        canvas_step(line, pending, paths_empty) matches Ok(step) ==> ({
            let name = command_parts(line).0;
            (trim(line).len() > 0 && (name == "path"@ || name == "text_path"@ || name == "transform"@
                || name == "boolean"@ || name == "round"@ || name == "simplify"@ || name == "path_noise"@
                || name == "path_duplicate_array"@ || name == "path_duplicate_grid"@
                || name == "path_duplicate_random"@ || name == "path_transform"@ || name == "fill"@))
                ==> step.draw == pending && step.pending is None
        }),
        canvas_step(line, pending, paths_empty) matches Err(refused) ==> ({
            let name = command_parts(line).0;
            (trim(line).len() > 0 && (name == "path"@ || name == "text_path"@ || name == "transform"@
                || name == "boolean"@ || name == "round"@ || name == "simplify"@ || name == "path_noise"@
                || name == "path_duplicate_array"@ || name == "path_duplicate_grid"@
                || name == "path_duplicate_random"@ || name == "path_transform"@ || name == "fill"@))
                ==> refused.draw == pending
        }),
{
    reveal_strlit("path");
    reveal_strlit("text_path");
    reveal_strlit("transform");
    reveal_strlit("stroke");
    reveal_strlit("stroke_to_path");
    reveal_strlit("boolean");
    reveal_strlit("round");
    reveal_strlit("simplify");
    reveal_strlit("path_noise");
    reveal_strlit("path_duplicate_array");
    reveal_strlit("path_duplicate_grid");
    reveal_strlit("path_duplicate_random");
    reveal_strlit("path_transform");
    reveal_strlit("fill");
    assert("path"@.len() != "stroke"@.len());
    assert("path"@.len() != "stroke_to_path"@.len());
    assert("text_path"@.len() != "stroke"@.len());
    assert("text_path"@.len() != "stroke_to_path"@.len());
    assert("transform"@.len() != "stroke"@.len());
    assert("transform"@.len() != "stroke_to_path"@.len());
    assert("boolean"@.len() != "stroke"@.len());
    assert("boolean"@.len() != "stroke_to_path"@.len());
    assert("round"@.len() != "stroke"@.len());
    assert("round"@.len() != "stroke_to_path"@.len());
    assert("simplify"@.len() != "stroke"@.len());
    assert("simplify"@.len() != "stroke_to_path"@.len());
    assert("path_noise"@.len() != "stroke"@.len());
    assert("path_noise"@.len() != "stroke_to_path"@.len());
    assert("path_duplicate_array"@.len() != "stroke"@.len());
    assert("path_duplicate_array"@.len() != "stroke_to_path"@.len());
    assert("path_duplicate_grid"@.len() != "stroke"@.len());
    assert("path_duplicate_grid"@.len() != "stroke_to_path"@.len());
    assert("path_duplicate_random"@.len() != "stroke"@.len());
    assert("path_duplicate_random"@.len() != "stroke_to_path"@.len());
    assert("path_transform"@.len() != "stroke"@.len());
    assert("path_transform"@[0] != "stroke_to_path"@[0]);
    assert("fill"@.len() != "stroke"@.len());
    assert("fill"@.len() != "stroke_to_path"@.len());
}

/// The command names that the canvas knows.
pub open spec fn is_command_name(name: Seq<char>) -> bool {
    ||| name == "path"@
    ||| name == "text_path"@
    ||| name == "transform"@
    ||| name == "stroke"@
    ||| name == "stroke_to_path"@
    ||| name == "boolean"@
    ||| name == "round"@
    ||| name == "simplify"@
    ||| name == "path_noise"@
    ||| name == "path_duplicate_array"@
    ||| name == "path_duplicate_grid"@
    ||| name == "path_duplicate_random"@
    ||| name == "path_transform"@
    ||| name == "fill"@
}

/// Blank lines and lines whose name is no command are skipped: nothing is drawn, the
/// paths stay and the same stroke waits.
pub proof fn lemma_unknown_lines_skipped(line: Seq<char>, pending: Option<StrokeStyleView>, paths_empty: bool)
    requires
        trim(line).len() == 0 || !is_command_name(command_parts(line).0),
    ensures
        canvas_step(line, pending, paths_empty) == Ok::<CanvasStepView, RefusalView>(no_step(pending)),
{
}

/// The counts that the duplication and noise commands hand on are at least 1.
pub proof fn lemma_counts_positive(line: Seq<char>, pending: Option<StrokeStyleView>, paths_empty: bool)
    ensures
        canvas_step(line, pending, paths_empty) matches Ok(step) ==> match step.action {
            CanvasActionView::PathNoise { sketch_count, .. } => sketch_count >= 1,
            CanvasActionView::DuplicateArray { count, .. } => count >= 1,
            CanvasActionView::DuplicateGrid { x_count, y_count, .. } => x_count >= 1 && y_count >= 1,
            CanvasActionView::DuplicateRandom { count, .. } => count >= 1,
            _ => true,
        },
{
}

/// `at_least_one`.
fn count_at_least_one(n: i32) -> (r: usize)
    ensures
        r == at_least_one(n),
{
    if n < 1 {
        1
    } else {
        n as usize
    }
}

/// The arguments of `path_noise`.
fn plan_path_noise(t: &Vec<Vec<char>>) -> (r: Result<CanvasAction, InputError>)
    ensures
        result_view(r) == noise_action(t.deep_view()),
{
    let segment_length: F32Arg = parse_optional_f32(t, 0, 8, "noise segment length")?;
    let deviation: F32Arg = parse_optional_f32(t, 1, 2, "noise deviation")?;
    let seed: i32 = parse_optional_i32(t, 2, 0, "noise seed")?;
    let n: i32 = parse_optional_i32(t, 3, 1, "noise sketch count")?;
    Ok(
        CanvasAction::PathNoise {
            segment_length,
            deviation,
            seed: seed as u32,
            sketch_count: count_at_least_one(n),
        },
    )
}

/// The arguments of `path_duplicate_array`.
fn plan_duplicate_array(t: &Vec<Vec<char>>) -> (r: Result<CanvasAction, InputError>)
    ensures
        result_view(r) == array_action(t.deep_view()),
{
    let n: i32 = parse_optional_i32(t, 0, 2, "array count")?;
    let dx: F32Arg = parse_optional_f32(t, 1, 0, "array x offset")?;
    let dy: F32Arg = parse_optional_f32(t, 2, 0, "array y offset")?;
    let rotation: F32Arg = parse_optional_f32(t, 3, 0, "array rotation offset")?;
    let pivot_x: F32Arg = parse_optional_f32(t, 4, 0, "array rotation pivot x")?;
    let pivot_y: F32Arg = parse_optional_f32(t, 5, 0, "array rotation pivot y")?;
    let sep: i32 = parse_optional_i32(t, 6, 1, "array separate copies")?;
    Ok(
        CanvasAction::DuplicateArray {
            count: count_at_least_one(n),
            dx,
            dy,
            rotation,
            pivot_x,
            pivot_y,
            separate_copies: sep != 0,
        },
    )
}

/// The arguments of `path_duplicate_grid`.
fn plan_duplicate_grid(t: &Vec<Vec<char>>) -> (r: Result<CanvasAction, InputError>)
    ensures
        result_view(r) == grid_action(t.deep_view()),
{
    let width: F32Arg = parse_optional_f32(t, 0, 200, "grid width")?;
    let height: F32Arg = parse_optional_f32(t, 1, 200, "grid height")?;
    let x: i32 = parse_optional_i32(t, 2, 3, "grid x count")?;
    let y: i32 = parse_optional_i32(t, 3, 3, "grid y count")?;
    let order: i32 = parse_optional_i32(t, 4, 0, "grid order")?;
    let sep: i32 = parse_optional_i32(t, 5, 1, "grid separate copies")?;
    Ok(
        CanvasAction::DuplicateGrid {
            width,
            height,
            x_count: count_at_least_one(x),
            y_count: count_at_least_one(y),
            column_order: order != 0,
            separate_copies: sep != 0,
        },
    )
}

/// The arguments of `path_duplicate_random`.
fn plan_duplicate_random(t: &Vec<Vec<char>>) -> (r: Result<CanvasAction, InputError>)
    ensures
        result_view(r) == random_action(t.deep_view()),
{
    let n: i32 = parse_optional_i32(t, 0, 10, "random count")?;
    let spread_x: F32Arg = parse_optional_f32(t, 1, 400, "random x spread")?;
    let spread_y: F32Arg = parse_optional_f32(t, 2, 400, "random y spread")?;
    let seed: i32 = parse_optional_i32(t, 3, 0, "random seed")?;
    let sep: i32 = parse_optional_i32(t, 4, 1, "random separate copies")?;
    Ok(
        CanvasAction::DuplicateRandom {
            count: count_at_least_one(n),
            spread_x,
            spread_y,
            seed: seed as u32,
            separate_copies: sep != 0,
        },
    )
}

/// The arguments of `path_transform`.
fn plan_path_transform(t: &Vec<Vec<char>>) -> (r: Result<CanvasAction, InputError>)
    ensures
        result_view(r) == path_transform_action(t.deep_view()),
{
    let dx: F32Arg = parse_optional_f32(t, 0, 0, "path transform x offset")?;
    let dy: F32Arg = parse_optional_f32(t, 1, 0, "path transform y offset")?;
    let scale: F32Arg = parse_optional_f32(t, 2, 1, "path transform scale")?;
    let rotation: F32Arg = parse_optional_f32(t, 3, 0, "path transform rotation")?;
    let pivot_x: F32Arg = parse_optional_f32(t, 4, 0, "path transform pivot x")?;
    let pivot_y: F32Arg = parse_optional_f32(t, 5, 0, "path transform pivot y")?;
    Ok(CanvasAction::PathTransform { dx, dy, scale, rotation, pivot_x, pivot_y })
}

/// The radius of `round`.
fn plan_round(data: &[char]) -> (r: Result<CanvasAction, InputError>)
    ensures
        result_view(r) == round_action(data@),
{
    let t: Vec<char> = trim_chars(data);
    match FloatLiteral::parse(&t) {
        Some(l) => Ok(CanvasAction::Round(l)),
        None => Err(InputError::NotANumber { name: "round radius".to_owned(), value: string_from(data) }),
    }
}

/// The step in which `pending` is drawn and `action` follows.
fn act(pending: Option<StrokeStyle>, action: Result<CanvasAction, InputError>) -> (r: Result<CanvasStep, Refusal>)
    ensures
        result_view(r) == acting(stroke_opt_view(pending), result_view(action)),
{
    match action {
        Ok(a) => Ok(CanvasStep { draw: pending, action: a, pending: None }),
        Err(e) => Err(Refusal { draw: pending, action: CanvasAction::Keep, error: e }),
    }
}

/// What the line `line` makes the program that draws do, where `pending` waits to be drawn
/// and `paths_empty` tells whether there are no paths. Every command that changes the
/// paths or the canvas draws the waiting stroke first, also where its data is then
/// refused; `stroke` (where there are paths) reads its data, then draws the waiting stroke
/// and makes the new one wait; `stroke_to_path` turns it into paths; blank lines and
/// unknown commands leave everything as it is. A refused transform list applies the
/// functions before the refused one.
pub fn plan_command(line: &[char], pending: Option<StrokeStyle>, paths_empty: bool) -> (r: Result<CanvasStep, Refusal>)
    ensures
        result_view(r) == canvas_step(line@, stroke_opt_view(pending), paths_empty),
{
    let (name, data) = command_parts_chars(line);
    let blank: Vec<char> = trim_chars(line);
    if blank.len() == 0 {
        return Ok(CanvasStep { draw: None, action: CanvasAction::Keep, pending });
    }
    if chars_eq(&name, "path") {
        Ok(CanvasStep { draw: pending, action: CanvasAction::CreatePath(string_from(&data)), pending: None })
    } else if chars_eq(&name, "text_path") {
        let a = match parse_text_path_command(&data) {
            Ok(c) => Ok(CanvasAction::CreateTextPaths(c)),
            Err(e) => Err(e),
        };
        act(pending, a)
    } else if chars_eq(&name, "transform") {
        let ParsedTransforms { ops, error } = parse_svg_transform(&data);
        match error {
            None => Ok(CanvasStep { draw: pending, action: CanvasAction::Transform(ops), pending: None }),
            Some(e) => Err(Refusal { draw: pending, action: CanvasAction::Transform(ops), error: e }),
        }
    } else if chars_eq(&name, "stroke") {
        if paths_empty {
            Ok(CanvasStep { draw: None, action: CanvasAction::Keep, pending })
        } else {
            let s: StrokeStyle = match parse_stroke_data(&data) {
                Ok(s) => s,
                Err(e) => return Err(Refusal { draw: None, action: CanvasAction::Keep, error: e }),
            };
            Ok(CanvasStep { draw: pending, action: CanvasAction::Keep, pending: Some(s) })
        }
    } else if chars_eq(&name, "stroke_to_path") {
        match pending {
            Some(s) => Ok(CanvasStep { draw: None, action: CanvasAction::StrokeToPaths(s), pending: None }),
            None => Ok(CanvasStep { draw: None, action: CanvasAction::Keep, pending: None }),
        }
    } else if chars_eq(&name, "boolean") {
        let a = match parse_boolean_op(&data) {
            Ok(op) => Ok(CanvasAction::Boolean(op)),
            Err(e) => Err(e),
        };
        act(pending, a)
    } else if chars_eq(&name, "round") {
        act(pending, plan_round(&data))
    } else if chars_eq(&name, "simplify") {
        Ok(CanvasStep { draw: pending, action: CanvasAction::Simplify, pending: None })
    } else if chars_eq(&name, "path_noise") {
        act(pending, plan_path_noise(&split_whitespace_chars(&data)))
    } else if chars_eq(&name, "path_duplicate_array") {
        act(pending, plan_duplicate_array(&split_whitespace_chars(&data)))
    } else if chars_eq(&name, "path_duplicate_grid") {
        act(pending, plan_duplicate_grid(&split_whitespace_chars(&data)))
    } else if chars_eq(&name, "path_duplicate_random") {
        act(pending, plan_duplicate_random(&split_whitespace_chars(&data)))
    } else if chars_eq(&name, "path_transform") {
        act(pending, plan_path_transform(&split_whitespace_chars(&data)))
    } else if chars_eq(&name, "fill") {
        if paths_empty {
            Ok(CanvasStep { draw: pending, action: CanvasAction::Keep, pending: None })
        } else {
            let a = match parse_fill_color(&data) {
                Ok(c) => Ok(CanvasAction::Fill(c)),
                Err(e) => Err(e),
            };
            act(pending, a)
        }
    } else {
        Ok(CanvasStep { draw: None, action: CanvasAction::Keep, pending })
    }
}

} // verus!

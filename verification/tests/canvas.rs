use vector_canvas::canvas::{command_lines, parse_command, plan_command, CanvasAction, CanvasStep, Refusal};
use vector_canvas::error::InputError;
use vector_canvas::stroke::{parse_stroke_data, StrokeStyle};
use vector_canvas::util::F32Arg;

fn chars(s: &str) -> Vec<char> {
    s.chars().collect()
}

fn stroke(s: &str) -> StrokeStyle {
    parse_stroke_data(&chars(s)).unwrap()
}

fn step(line: &str, pending: Option<StrokeStyle>, paths_empty: bool) -> Result<CanvasStep, InputError> {
    plan_command(&chars(line), pending, paths_empty).map_err(|r| r.error)
}

fn refusal(line: &str, pending: Option<StrokeStyle>, paths_empty: bool) -> Refusal {
    plan_command(&chars(line), pending, paths_empty).unwrap_err()
}

fn lit(a: &F32Arg) -> String {
    match a {
        F32Arg::Literal(l) => l.as_str().to_string(),
        F32Arg::Whole(n) => format!("whole {}", n),
    }
}

#[test]
fn parse_command_splits_at_the_first_colon() {
    assert_eq!(parse_command("path: M 0 0 L 1:2"), ("path".to_string(), "M 0 0 L 1:2".to_string()));
    assert_eq!(parse_command("  fill :   #fff "), ("fill".to_string(), "#fff ".to_string()));
    assert_eq!(parse_command(" simplify "), ("simplify".to_string(), String::new()));
    assert_eq!(parse_command("text_path:\t1"), ("text_path".to_string(), "\t1".to_string()));
    assert_eq!(parse_command(":"), (String::new(), String::new()));
}

#[test]
fn command_lines_are_str_lines() {
    let lines: Vec<String> = command_lines("path: a\r\n\nfill: b\n").into_iter().map(|l| l.into_iter().collect()).collect();
    assert_eq!(lines, vec!["path: a".to_string(), String::new(), "fill: b".to_string()]);
}

#[test]
fn path_draws_the_waiting_stroke_first() {
    let s = step("path: M0 0 L10 10", Some(stroke("#fff 2")), false).unwrap();
    assert_eq!(s.draw, Some(stroke("#fff 2")));
    assert_eq!(s.action, CanvasAction::CreatePath("M0 0 L10 10".to_string()));
    assert_eq!(s.pending, None);
}

#[test]
fn stroke_waits_only_over_paths() {
    let s = step("stroke: #fff 2", None, true).unwrap();
    assert_eq!(s, CanvasStep { draw: None, action: CanvasAction::Keep, pending: None });
    let s = step("stroke: not-a-color", None, true).unwrap();
    assert_eq!(s.pending, None);
    let s = step("stroke: #fff 2", Some(stroke("#000")), false).unwrap();
    assert_eq!(s.draw, Some(stroke("#000")));
    assert_eq!(s.action, CanvasAction::Keep);
    assert_eq!(s.pending, Some(stroke("#fff 2")));
    assert_eq!(
        step("stroke: red", None, false).unwrap_err(),
        InputError::InvalidColor("red".to_string())
    );
}

#[test]
fn stroke_to_path_takes_the_waiting_stroke() {
    let s = step("stroke_to_path", Some(stroke("#fff 3")), false).unwrap();
    assert_eq!(s.draw, None);
    assert_eq!(s.action, CanvasAction::StrokeToPaths(stroke("#fff 3")));
    assert_eq!(s.pending, None);
    let s = step("stroke_to_path", None, false).unwrap();
    assert_eq!(s, CanvasStep { draw: None, action: CanvasAction::Keep, pending: None });
}

#[test]
fn unknown_and_blank_lines_change_nothing() {
    for line in ["  ", "\t", "frobnicate: 1 2", "# note", "Path: x"] {
        let s = step(line, Some(stroke("#123456")), false).unwrap();
        assert_eq!(s, CanvasStep { draw: None, action: CanvasAction::Keep, pending: Some(stroke("#123456")) });
    }
}

#[test]
fn fill_parses_its_color_only_over_paths() {
    let s = step("fill: zz", Some(stroke("#fff")), true).unwrap();
    assert_eq!(s, CanvasStep { draw: Some(stroke("#fff")), action: CanvasAction::Keep, pending: None });
    assert_eq!(step("fill: zz", None, false).unwrap_err(), InputError::InvalidColor("zz".to_string()));
    match step("fill: #00ff00 0.5", None, false).unwrap().action {
        CanvasAction::Fill(f) => assert_eq!(lit(&f.opacity), "0.5"),
        other => panic!("{:?}", other),
    }
}

#[test]
fn round_radius() {
    match step("round:  2 ", None, false).unwrap().action {
        CanvasAction::Round(r) => assert_eq!(r.as_str(), "2"),
        other => panic!("{:?}", other),
    }
    assert_eq!(
        step("round: big", None, false).unwrap_err(),
        InputError::NotANumber { name: "round radius".to_string(), value: "big".to_string() }
    );
}

#[test]
fn duplication_arguments_and_defaults() {
    match step("path_duplicate_grid: 100 50 0 -4 1 0", None, false).unwrap().action {
        CanvasAction::DuplicateGrid { width, height, x_count, y_count, column_order, separate_copies } => {
            assert_eq!((lit(&width), lit(&height)), ("100".to_string(), "50".to_string()));
            assert_eq!((x_count, y_count, column_order, separate_copies), (1, 1, true, false));
        }
        other => panic!("{:?}", other),
    }
    match step("path_duplicate_random:", None, false).unwrap().action {
        CanvasAction::DuplicateRandom { count, spread_x, spread_y, seed, separate_copies } => {
            assert_eq!((count, seed, separate_copies), (10, 0, true));
            assert_eq!((spread_x, spread_y), (F32Arg::Whole(400), F32Arg::Whole(400)));
        }
        other => panic!("{:?}", other),
    }
    match step("path_duplicate_array: 5 10 0 15", None, false).unwrap().action {
        CanvasAction::DuplicateArray { count, dx, rotation, pivot_x, separate_copies, .. } => {
            assert_eq!((count, separate_copies), (5, true));
            assert_eq!((lit(&dx), lit(&rotation)), ("10".to_string(), "15".to_string()));
            assert_eq!(pivot_x, F32Arg::Whole(0));
        }
        other => panic!("{:?}", other),
    }
    match step("path_noise: 4 1 -1 0", None, false).unwrap().action {
        CanvasAction::PathNoise { segment_length, deviation, seed, sketch_count } => {
            assert_eq!((lit(&segment_length), lit(&deviation)), ("4".to_string(), "1".to_string()));
            assert_eq!((seed, sketch_count), (u32::MAX, 1));
        }
        other => panic!("{:?}", other),
    }
    match step("path_transform: 1 2 0.5", None, false).unwrap().action {
        CanvasAction::PathTransform { scale, rotation, .. } => {
            assert_eq!(lit(&scale), "0.5");
            assert_eq!(rotation, F32Arg::Whole(0));
        }
        other => panic!("{:?}", other),
    }
    assert_eq!(
        step("path_duplicate_array: many", None, false).unwrap_err(),
        InputError::NotAnInteger { name: "array count".to_string(), value: "many".to_string() }
    );
}

#[test]
fn transform_and_boolean_and_text() {
    match step("transform: scale(2)", None, false).unwrap().action {
        CanvasAction::Transform(ops) => assert_eq!(ops.len(), 1),
        other => panic!("{:?}", other),
    }
    assert_eq!(
        step("boolean: NAND", None, false).unwrap_err(),
        InputError::UnsupportedBooleanOp("NAND".to_string())
    );
    assert_eq!(step("text_path: 1\t2", None, false).unwrap_err(), InputError::TextFieldCount(2));
    assert_eq!(
        step("simplify", Some(stroke("#fff")), false).unwrap(),
        CanvasStep { draw: Some(stroke("#fff")), action: CanvasAction::Simplify, pending: None }
    );
}

#[test]
fn a_refused_line_draws_the_waiting_stroke_first() {
    let r = refusal("round: abc", Some(stroke("#ff0000 2")), false);
    assert_eq!(r.draw, Some(stroke("#ff0000 2")));
    assert_eq!(r.action, CanvasAction::Keep);
    assert_eq!(r.error, InputError::NotANumber { name: "round radius".to_string(), value: "abc".to_string() });
    let r = refusal("fill: zz", Some(stroke("#fff")), false);
    assert_eq!(r.draw, Some(stroke("#fff")));
    let r = refusal("path_noise: x", Some(stroke("#fff")), false);
    assert_eq!(r.draw, Some(stroke("#fff")));
}

#[test]
fn a_refused_stroke_draws_nothing() {
    let r = refusal("stroke: red", Some(stroke("#fff")), false);
    assert_eq!(r.draw, None);
    assert_eq!(r.action, CanvasAction::Keep);
    assert_eq!(r.error, InputError::InvalidColor("red".to_string()));
}

#[test]
fn a_refused_transform_applies_what_comes_before() {
    let r = refusal("transform: translate(5 5) bogus(1)", Some(stroke("#fff")), false);
    assert_eq!(r.draw, Some(stroke("#fff")));
    assert_eq!(r.error, InputError::UnsupportedTransform("bogus".to_string()));
    match r.action {
        CanvasAction::Transform(ops) => {
            assert_eq!(ops.len(), 1);
            assert_eq!(ops[0].args.iter().map(|a| a.as_str()).collect::<Vec<_>>(), vec!["5", "5"]);
        }
        other => panic!("{:?}", other),
    }
}

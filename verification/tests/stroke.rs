use vector_canvas::error::InputError;
use vector_canvas::stroke::{even_dash_pattern, parse_stroke_data, Cap, Join};
use vector_canvas::util::{Color, F32Arg};

fn chars(s: &str) -> Vec<char> {
    s.chars().collect()
}

fn lit(a: &F32Arg) -> String {
    match a {
        F32Arg::Literal(l) => l.as_str().to_string(),
        F32Arg::Whole(n) => format!("whole {}", n),
    }
}

#[test]
fn full_stroke() {
    let s = parse_stroke_data(&chars("#ff0000 2 1 { 4 2 } 0.5 1 2 3 0 1 0.5 0.8")).unwrap();
    assert_eq!(s.color, Color { a: 255, r: 255, g: 0, b: 0 });
    assert_eq!(lit(&s.width), "2");
    let dashes: Vec<String> = s.dash_intervals.as_ref().unwrap().iter().map(|l| l.as_str().to_string()).collect();
    assert_eq!(dashes, vec!["4", "2"]);
    assert_eq!(lit(&s.dash_phase), "0.5");
    assert_eq!(s.cap, Cap::Square);
    assert_eq!(s.join, Join::Bevel);
    assert_eq!(lit(&s.miter_limit), "3");
    let trim = s.trim.as_ref().unwrap();
    assert_eq!((lit(&trim.start), lit(&trim.stop), lit(&trim.overlap)), ("0".to_string(), "1".to_string(), "0.5".to_string()));
    assert_eq!(lit(&s.opacity), "0.8");
}

#[test]
fn defaults_of_a_bare_color() {
    let s = parse_stroke_data(&chars("#000000")).unwrap();
    assert_eq!(s.width, F32Arg::Whole(4));
    assert!(s.dash_intervals.is_none());
    assert_eq!(s.dash_phase, F32Arg::Whole(0));
    assert_eq!(s.cap, Cap::Butt);
    assert_eq!(s.join, Join::Miter);
    assert_eq!(s.miter_limit, F32Arg::Whole(4));
    assert!(s.trim.is_none());
    assert_eq!(s.opacity, F32Arg::Whole(1));
}

#[test]
fn undashed_stroke_skips_its_braces() {
    let s = parse_stroke_data(&chars("#000 4 0 { 1 2 } 7 2 1")).unwrap();
    assert!(s.dash_intervals.is_none());
    assert_eq!(lit(&s.dash_phase), "7");
    assert_eq!(s.cap, Cap::Round);
    assert_eq!(s.join, Join::Round);
    let s = parse_stroke_data(&chars("#000 4 0 {} 9")).unwrap();
    assert_eq!(lit(&s.dash_phase), "9");
    let s = parse_stroke_data(&chars("#000 4 1 {} 9")).unwrap();
    assert_eq!(s.dash_intervals.unwrap().len(), 0);
}

#[test]
fn stroke_errors() {
    let err = |s: &str| parse_stroke_data(&chars(s)).unwrap_err();
    assert_eq!(err(" "), InputError::InvalidInput("stroke color is missing".to_string()));
    assert_eq!(err("red"), InputError::InvalidColor("red".to_string()));
    assert_eq!(
        err("#fff wide"),
        InputError::NotANumber { name: "stroke width".to_string(), value: "wide".to_string() }
    );
    assert_eq!(
        err("#fff 1 yes"),
        InputError::NotAnInteger { name: "stroke dashed flag".to_string(), value: "yes".to_string() }
    );
    assert_eq!(
        err("#fff 1 1 { 1 x }"),
        InputError::NotANumber { name: "dash interval".to_string(), value: "x".to_string() }
    );
    assert_eq!(err("#fff 1 1 4"), InputError::InvalidInput("dash intervals must start with '{'".to_string()));
    assert_eq!(err("#fff 1 1"), InputError::InvalidInput("dash intervals must start with '{'".to_string()));
    assert_eq!(err("#fff 1 1 { 1 2"), InputError::InvalidInput("dash intervals must end with '}'".to_string()));
    assert_eq!(err("#fff 1 0 { 1"), InputError::InvalidInput("braced block must end with '}'".to_string()));
    assert_eq!(err("#fff 1 0 0 5"), InputError::UnsupportedCap(5));
    assert_eq!(err("#fff 1 0 0 0 -1"), InputError::UnsupportedJoin(-1));
    assert_eq!(
        err("#fff 1 0 {} 0 0 0 4 0.1"),
        InputError::InvalidInput("stroke trim expects start, stop and overlap".to_string())
    );
    assert_eq!(
        err("#fff 1 0 0 0 0 4 0 1 1 clear"),
        InputError::NotANumber { name: "stroke opacity".to_string(), value: "clear".to_string() }
    );
}

#[test]
fn dash_patterns_have_an_even_count() {
    assert_eq!(even_dash_pattern(vec![1.0f32, 2.0, 3.0]), Some(vec![1.0, 2.0, 3.0, 1.0, 2.0, 3.0]));
    assert_eq!(even_dash_pattern(vec![1.0f32, 2.0]), Some(vec![1.0, 2.0]));
    assert_eq!(even_dash_pattern(Vec::<f32>::new()), None);
    assert_eq!(even_dash_pattern(vec![5u8]), Some(vec![5, 5]));
}

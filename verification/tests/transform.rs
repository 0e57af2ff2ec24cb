use vector_canvas::error::InputError;
use vector_canvas::transform::{parse_svg_transform, TransformKind};

fn chars(s: &str) -> Vec<char> {
    s.chars().collect()
}

fn ops(s: &str) -> Vec<(TransformKind, Vec<String>)> {
    let parsed = parse_svg_transform(&chars(s));
    assert_eq!(parsed.error, None);
    parsed
        .ops
        .into_iter()
        .map(|op| (op.kind, op.args.iter().map(|a| a.as_str().to_string()).collect()))
        .collect()
}

#[test]
fn transform_functions_in_order() {
    assert_eq!(
        ops(" translate(10, 20) rotate(45 5,5)scale(2) "),
        vec![
            (TransformKind::Translate, vec!["10".to_string(), "20".to_string()]),
            (TransformKind::Rotate, vec!["45".to_string(), "5".to_string(), "5".to_string()]),
            (TransformKind::Scale, vec!["2".to_string()]),
        ]
    );
    assert_eq!(ops("matrix(1 0 0 1 5 6)")[0].1.len(), 6);
    assert_eq!(ops("skewX(30) skewY(-1e1)")[1], (TransformKind::SkewY, vec!["-1e1".to_string()]));
    assert!(ops("   ").is_empty());
}

#[test]
fn transform_errors() {
    let err = |s: &str| parse_svg_transform(&chars(s)).error.unwrap();
    assert_eq!(err("translate 10"), InputError::InvalidTransform("translate 10".to_string()));
    assert_eq!(err("scale(2) x"), InputError::InvalidTransform("x".to_string()));
    assert_eq!(err("rotate(45"), InputError::MissingParen("rotate(45".to_string()));
    assert_eq!(
        err("translate(1, a)"),
        InputError::NotANumber { name: "transform value".to_string(), value: "a".to_string() }
    );
    assert_eq!(
        err("matrix(1 2 3)"),
        InputError::ArgumentCount { name: "matrix".to_string(), min: 6, max: 6, got: 3 }
    );
    assert_eq!(
        err("rotate()"),
        InputError::ArgumentCount { name: "rotate".to_string(), min: 1, max: 3, got: 0 }
    );
    assert_eq!(err("spin(3)"), InputError::UnsupportedTransform("spin".to_string()));
    assert_eq!(err("spin(x)"), InputError::NotANumber { name: "transform value".to_string(), value: "x".to_string() });
}

#[test]
fn functions_before_a_refused_one_are_kept() {
    let parsed = parse_svg_transform(&chars("translate(5 5) bogus(1) scale(2)"));
    assert_eq!(parsed.error, Some(InputError::UnsupportedTransform("bogus".to_string())));
    assert_eq!(parsed.ops.len(), 1);
    assert_eq!(parsed.ops[0].kind, TransformKind::Translate);
    let parsed = parse_svg_transform(&chars("rotate(1)scale(2) translate 3"));
    assert_eq!(parsed.ops.len(), 2);
    assert_eq!(parsed.error, Some(InputError::InvalidTransform("translate 3".to_string())));
    let parsed = parse_svg_transform(&chars("nothing"));
    assert!(parsed.ops.is_empty());
}

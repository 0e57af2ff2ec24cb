use vector_canvas::error::InputError;
use vector_canvas::util::{
    parse_bool_flag, parse_fill_color, parse_hex_color, parse_optional_f32, parse_optional_i32,
    Color, F32Arg,
};

fn chars(s: &str) -> Vec<char> {
    s.chars().collect()
}

fn tokens(s: &str) -> Vec<Vec<char>> {
    s.split_whitespace().map(chars).collect()
}

#[test]
fn optional_numbers_take_the_token_or_the_default() {
    let t = tokens("1.5 x -3");
    match parse_optional_f32(&t, 0, 8, "a").unwrap() {
        F32Arg::Literal(l) => assert_eq!(l.as_str(), "1.5"),
        other => panic!("{:?}", other),
    }
    assert_eq!(parse_optional_f32(&t, 5, 8, "a").unwrap(), F32Arg::Whole(8));
    assert_eq!(
        parse_optional_f32(&t, 1, 8, "noise deviation").unwrap_err(),
        InputError::NotANumber { name: "noise deviation".to_string(), value: "x".to_string() }
    );
    assert_eq!(parse_optional_i32(&t, 2, 1, "n").unwrap(), -3);
    assert_eq!(parse_optional_i32(&t, 3, 1, "n").unwrap(), 1);
    assert_eq!(
        parse_optional_i32(&t, 0, 1, "grid x count").unwrap_err(),
        InputError::NotAnInteger { name: "grid x count".to_string(), value: "1.5".to_string() }
    );
}

#[test]
fn flags_are_zero_or_one() {
    assert_eq!(parse_bool_flag(&chars("0"), "bold"), Ok(false));
    assert_eq!(parse_bool_flag(&chars("1"), "bold"), Ok(true));
    assert_eq!(
        parse_bool_flag(&chars("true"), "italic"),
        Err(InputError::NotAFlag { name: "italic".to_string(), value: "true".to_string() })
    );
}

#[test]
fn hex_colors() {
    assert_eq!(parse_hex_color(&chars("#ff8000")), Ok(Color { a: 255, r: 255, g: 128, b: 0 }));
    assert_eq!(parse_hex_color(&chars(" 0000FF ")), Ok(Color { a: 255, r: 0, g: 0, b: 255 }));
    assert_eq!(parse_hex_color(&chars("#12345678")), Ok(Color { a: 255, r: 0x34, g: 0x56, b: 0x78 }));
    assert_eq!(parse_hex_color(&chars("+fff")), Ok(Color { a: 255, r: 0, g: 0x0f, b: 0xff }));
    assert_eq!(parse_hex_color(&chars("#zz")), Err(InputError::InvalidColor("#zz".to_string())));
    assert_eq!(parse_hex_color(&chars("##fff")), Err(InputError::InvalidColor("##fff".to_string())));
    assert_eq!(parse_hex_color(&chars("#")), Err(InputError::InvalidColor("#".to_string())));
}

#[test]
fn fill_colors() {
    let f = parse_fill_color(&chars("#102030 0.25")).unwrap();
    assert_eq!(f.color, Color { a: 255, r: 0x10, g: 0x20, b: 0x30 });
    match f.opacity {
        F32Arg::Literal(l) => assert_eq!(l.as_str(), "0.25"),
        other => panic!("{:?}", other),
    }
    assert_eq!(parse_fill_color(&chars("#102030")).unwrap().opacity, F32Arg::Whole(1));
    assert_eq!(
        parse_fill_color(&chars("   ")).unwrap_err(),
        InputError::InvalidInput("fill color is missing".to_string())
    );
    assert_eq!(
        parse_fill_color(&chars("#fff half")).unwrap_err(),
        InputError::NotANumber { name: "fill opacity".to_string(), value: "half".to_string() }
    );
}

use vector_canvas::number::{
    is_float_literal_chars, parse_hex_u32, parse_i32, parse_usize, FloatLiteral,
};

fn chars(s: &str) -> Vec<char> {
    s.chars().collect()
}

#[test]
fn i32_parse_agrees_with_std() {
    for s in [
        "0", "-0", "+7", "42", "-42", "007", "2147483647", "-2147483648", "2147483648",
        "-2147483649", "", "+", "-", "--1", "1 ", " 1", "1.0", "12a", "99999999999999999999",
    ] {
        assert_eq!(parse_i32(&chars(s)), s.parse::<i32>().ok(), "{:?}", s);
    }
}

#[test]
fn usize_parse_agrees_with_std() {
    for s in ["0", "+8", "8", "-1", "", "+", "18446744073709551615", "18446744073709551616", "1e3"] {
        assert_eq!(parse_usize(&chars(s)), s.parse::<usize>().ok(), "{:?}", s);
    }
}

#[test]
fn hex_parse_agrees_with_std() {
    for s in ["ff8000", "FFFFFFFF", "100000000", "+ff", "-ff", "", "+", "0x10", "aBc"] {
        assert_eq!(parse_hex_u32(&chars(s)), u32::from_str_radix(s, 16).ok(), "{:?}", s);
    }
}

#[test]
fn float_literals_are_what_f32_from_str_accepts() {
    for s in [
        "1", "-1", "+1.5", "1.", ".5", "1e5", "1E-5", "2.5e+10", "inf", "-Infinity", "NaN",
        "+nan", "0.0", "1_0", "", ".", "e5", "1e", "1e+", "1.2.3", "--1", "in", "infinit",
        " 1", "1 ", "0x10", "1f", "1e5.0", "-.", "+.e1",
    ] {
        let ours = is_float_literal_chars(&chars(s));
        assert_eq!(ours, s.parse::<f32>().is_ok(), "{:?}", s);
        assert_eq!(FloatLiteral::parse(&chars(s)).is_some(), ours);
    }
    assert_eq!(FloatLiteral::parse(&chars("2.5")).unwrap().as_str(), "2.5");
}

use vector_canvas::error::InputError;
use vector_canvas::text::{parse_text_path_command, HorizontalAlign, TextAlign, VerticalAlign};

fn chars(s: &str) -> Vec<char> {
    s.chars().collect()
}

#[test]
fn ten_fields_align_top_left() {
    let c = parse_text_path_command(&chars("1\t2\t30\t0.5\t-1\tArial\t1\t0\t1\tHi\\nthere\\t\\\\")).unwrap();
    assert_eq!((c.x.as_str(), c.y.as_str(), c.size.as_str()), ("1", "2", "30"));
    assert_eq!((c.letter_spacing.as_str(), c.line_spacing.as_str()), ("0.5", "-1"));
    assert_eq!(c.font_name, "Arial");
    assert_eq!((c.bold, c.italic, c.separate_paths), (true, false, true));
    assert_eq!(c.align, TextAlign { horizontal: HorizontalAlign::Left, vertical: VerticalAlign::Top });
    assert_eq!(c.text, "Hi\nthere\t\\");
}

#[test]
fn eleven_fields_carry_the_alignment() {
    let c = parse_text_path_command(&chars("0\t0\t10\t0\t0\t\t0\t1\t0\t7\ta\tb")).unwrap();
    assert_eq!(c.align, TextAlign { horizontal: HorizontalAlign::Center, vertical: VerticalAlign::Bottom });
    assert_eq!(c.text, "a\tb");
    assert_eq!(c.font_name, "");
    assert!(c.italic);
    let c = parse_text_path_command(&chars("0\t0\t10\t0\t0\tf\t0\t0\t0\t5\tx")).unwrap();
    assert_eq!(c.align, TextAlign { horizontal: HorizontalAlign::Right, vertical: VerticalAlign::Middle });
}

#[test]
fn text_path_errors() {
    let err = |s: &str| parse_text_path_command(&chars(s)).unwrap_err();
    assert_eq!(err("1\t2\t3"), InputError::TextFieldCount(3));
    assert_eq!(
        err("0\t0\t10\t0\t0\tf\t0\t0\t0\t9\tx"),
        InputError::TextAlignOutOfRange("9".to_string())
    );
    assert_eq!(
        err("0\t0\t10\t0\t0\tf\t0\t0\t0\tleft\tx"),
        InputError::NotANumber { name: "text align".to_string(), value: "left".to_string() }
    );
    assert_eq!(
        err("a\tb\t10\t0\t0\tf\t0\t0\t0\t9\tx"),
        InputError::TextAlignOutOfRange("9".to_string())
    );
    assert_eq!(
        err("a\t0\t10\t0\t0\tf\t0\t0\t0\tx"),
        InputError::NotANumber { name: "text x".to_string(), value: "a".to_string() }
    );
    assert_eq!(
        err("0\t0\tbig\t0\t0\tf\t0\t0\t0\tx"),
        InputError::NotANumber { name: "text size".to_string(), value: "big".to_string() }
    );
    assert_eq!(
        err("0\t0\t1\t0\t0\tf\t2\t0\t0\tx"),
        InputError::NotAFlag { name: "bold".to_string(), value: "2".to_string() }
    );
    assert_eq!(
        err("0\t0\t1\t0\t0\tf\t0\t0\tno\tx"),
        InputError::NotAFlag { name: "separate_paths".to_string(), value: "no".to_string() }
    );
    assert_eq!(err("0\t0\t1\t0\t0\tf\t0\t0\t0\tx\\q"), InputError::UnsupportedEscape('q'));
    assert_eq!(
        err("0\t0\t1\t0\t0\tf\t0\t0\t0\tx\\"),
        InputError::InvalidInput("text escape is incomplete".to_string())
    );
}

#[test]
fn text_without_backslash_is_kept() {
    let c = parse_text_path_command(&chars("0\t0\t10\t0\t0\tf\t0\t0\t0\tplain text, no escapes")).unwrap();
    assert_eq!(c.text, "plain text, no escapes");
}

#[test]
fn escaped_text_comes_back() {
    let text = "a\\b\nc\td";
    let escaped = "a\\\\b\\nc\\td";
    let line = format!("0\t0\t10\t0\t0\tf\t0\t0\t0\t{escaped}");
    let c = parse_text_path_command(&chars(&line)).unwrap();
    assert_eq!(c.text, text);
    let bad = parse_text_path_command(&chars("0\t0\t10\t0\t0\tf\t0\t0\t0\tend\\")).unwrap_err();
    assert_eq!(bad, InputError::InvalidInput("text escape is incomplete".to_string()));
}

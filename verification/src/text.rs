//! The data of `text_path`: tab-separated fields that place a text, choose its font and
//! alignment, and give the text itself with `\n`, `\t` and `\\` escapes.
use vstd::prelude::*;
use crate::chars::{splitn, splitn_chars, string_from, string_of};
use crate::error::{invalid_input, result_view, ErrorView, InputError};
use crate::number::{is_float_literal, parse_usize, unsigned_value, FloatLiteral};
use crate::util::{bool_flag, parse_bool_flag};

verus! {

#[derive(Clone, Copy, Debug, PartialEq, Eq, Structural)]
pub enum HorizontalAlign {
    Left,
    Center,
    Right,
}

#[derive(Clone, Copy, Debug, PartialEq, Eq, Structural)]
pub enum VerticalAlign {
    Top,
    Middle,
    Bottom,
}

/// Where a text block stands relative to its anchor point.
#[derive(Clone, Copy, Debug, PartialEq, Eq, Structural)]
pub struct TextAlign {
    pub horizontal: HorizontalAlign,
    pub vertical: VerticalAlign,
}

impl View for TextAlign {
    type V = TextAlign;

    open spec fn view(&self) -> TextAlign {
        *self
    }
}

/// The alignment that the index `n` numbers: `n % 3` picks left, center or right and
/// `n / 3` top, middle or bottom; none where `n >= 9`.
pub open spec fn align_of_index(n: int) -> Option<TextAlign> {
    let h = if n % 3 == 0 {
        HorizontalAlign::Left
    } else if n % 3 == 1 {
        HorizontalAlign::Center
    } else {
        HorizontalAlign::Right
    };
    if 0 <= n < 3 {
        Some(TextAlign { horizontal: h, vertical: VerticalAlign::Top })
    } else if 3 <= n < 6 {
        Some(TextAlign { horizontal: h, vertical: VerticalAlign::Middle })
    } else if 6 <= n < 9 {
        Some(TextAlign { horizontal: h, vertical: VerticalAlign::Bottom })
    } else {
        None
    }
}

/// The alignment field: an index from 0 to 8, written as `usize::from_str` reads it.
pub open spec fn text_align(value: Seq<char>) -> Result<TextAlign, ErrorView> {
    match unsigned_value(value, 10, usize::MAX as int) {
        None => Err(ErrorView::NotANumber { name: "text align"@, value }),
        Some(n) => match align_of_index(n) {
            Some(a) => Ok(a),
            None => Err(ErrorView::TextAlignOutOfRange(value)),
        },
    }
}

/// Text without a backslash is its own unescaped form.
pub proof fn lemma_unescape_plain(s: Seq<char>)
    requires
        !s.contains('\\'),
    ensures
        unescape(s) == Ok::<Seq<char>, ErrorView>(s),
    decreases s.len(),
{
    if s.len() > 0 {
        assert(s[0] != '\\') by {
            if s[0] == '\\' {
                assert(s.contains('\\'));
            }
        }
        let t = s.drop_first();
        assert(!t.contains('\\')) by {
            if t.contains('\\') {
                let j = choose|j: int| 0 <= j < t.len() && t[j] == '\\';
                assert(s[j + 1] == '\\');
            }
        }
        lemma_unescape_plain(t);
        assert(seq![s[0]] + t =~= s);
    } else {
        assert(s =~= Seq::<char>::empty());
    }
}

/// `s` written so that `unescape` gives it back: each backslash as `\\`, each line feed
/// as `\n`, each tab as `\t`, every other character as it is.
pub open spec fn escape(s: Seq<char>) -> Seq<char>
    decreases s.len(),
{
    if s.len() == 0 {
        Seq::empty()
    } else {
        let head = if s[0] == '\\' {
            seq!['\\', '\\']
        } else if s[0] == '\n' {
            seq!['\\', 'n']
        } else if s[0] == '\t' {
            seq!['\\', 't']
        } else {
            seq![s[0]]
        };
        head + escape(s.drop_first())
    }
}

/// Whether every backslash of `t` that starts an escape, reading left to right, is
/// followed by `n`, `t` or another backslash.
pub open spec fn well_escaped(t: Seq<char>) -> bool
    decreases t.len(),
{
    if t.len() == 0 {
        true
    } else if t[0] != '\\' {
        well_escaped(t.drop_first())
    } else {
        t.len() >= 2 && (t[1] == 'n' || t[1] == 't' || t[1] == '\\') && well_escaped(t.skip(2))
    }
}

/// Unescaping the escaped text gives the text back.
pub proof fn lemma_unescape_escape(s: Seq<char>)
    ensures
        unescape(escape(s)) == Ok::<Seq<char>, ErrorView>(s),
    decreases s.len(),
{
    if s.len() > 0 {
        let t = s.drop_first();
        lemma_unescape_escape(t);
        let e = escape(s);
        if s[0] == '\\' || s[0] == '\n' || s[0] == '\t' {
            assert(e.skip(2) =~= escape(t));
        } else {
            assert(e.drop_first() =~= escape(t));
        }
        assert(seq![s[0]] + t =~= s);
    } else {
        assert(escape(s) =~= Seq::<char>::empty());
        assert(s =~= Seq::<char>::empty());
    }
}

/// Unescaping succeeds exactly on well-escaped text.
pub proof fn lemma_unescape_succeeds(t: Seq<char>)
    ensures
        unescape(t) is Ok <==> well_escaped(t),
    decreases t.len(),
{
    if t.len() > 0 {
        if t[0] != '\\' {
            lemma_unescape_succeeds(t.drop_first());
        } else if t.len() >= 2 {
            lemma_unescape_succeeds(t.skip(2));
        }
    }
}

/// The nine alignment indices name nine different alignments.
pub proof fn lemma_align_indices_distinct(n: int, m: int)
    requires
        0 <= n < 9,
        0 <= m < 9,
        n != m,
    ensures
        align_of_index(n) is Some,
        align_of_index(n) != align_of_index(m),
{
}

/// `s` with its escapes replaced: `\n` by a line feed, `\t` by a tab and `\\` by one
/// backslash; any other escape, or a backslash at the end, is an error.
pub open spec fn unescape(s: Seq<char>) -> Result<Seq<char>, ErrorView>
    decreases s.len(),
{
    if s.len() == 0 {
        Ok(Seq::empty())
    } else if s[0] != '\\' {
        match unescape(s.drop_first()) {
            Ok(r) => Ok(seq![s[0]] + r),
            Err(e) => Err(e),
        }
    } else if s.len() == 1 {
        Err(ErrorView::InvalidInput("text escape is incomplete"@))
    } else if s[1] != 'n' && s[1] != 't' && s[1] != '\\' {
        Err(ErrorView::UnsupportedEscape(s[1]))
    } else {
        let out = if s[1] == 'n' {
            '\n'
        } else if s[1] == 't' {
            '\t'
        } else {
            '\\'
        };
        match unescape(s.skip(2)) {
            Ok(r) => Ok(seq![out] + r),
            Err(e) => Err(e),
        }
    }
}

/// A parsed `text_path`. The numbers are `f32` literals; the program that draws makes the
/// size at least 0.
#[derive(Debug, PartialEq, Eq)]
pub struct TextPathCommand {
    pub x: FloatLiteral,
    pub y: FloatLiteral,
    pub size: FloatLiteral,
    pub letter_spacing: FloatLiteral,
    pub line_spacing: FloatLiteral,
    pub font_name: String,
    pub bold: bool,
    pub italic: bool,
    pub separate_paths: bool,
    pub align: TextAlign,
    pub text: String,
}

/// `TextPathCommand` with its texts and numbers as character sequences.
pub struct TextPathCommandView {
    pub x: Seq<char>,
    pub y: Seq<char>,
    pub size: Seq<char>,
    pub letter_spacing: Seq<char>,
    pub line_spacing: Seq<char>,
    pub font_name: Seq<char>,
    pub bold: bool,
    pub italic: bool,
    pub separate_paths: bool,
    pub align: TextAlign,
    pub text: Seq<char>,
}

impl View for TextPathCommand {
    type V = TextPathCommandView;

    open spec fn view(&self) -> TextPathCommandView {
        TextPathCommandView {
            x: self.x@,
            y: self.y@,
            size: self.size@,
            letter_spacing: self.letter_spacing@,
            line_spacing: self.line_spacing@,
            font_name: self.font_name@,
            bold: self.bold,
            italic: self.italic,
            separate_paths: self.separate_paths,
            align: self.align,
            text: self.text@,
        }
    }
}

/// A number field of `text_path`.
pub open spec fn number_field(value: Seq<char>, name: Seq<char>) -> Result<Seq<char>, ErrorView> {
    if is_float_literal(value) {
        Ok(value)
    } else {
        Err(ErrorView::NotANumber { name, value })
    }
}

/// The fields of `text_path`, after the alignment and the text are known.
pub open spec fn text_path_fields(f: Seq<Seq<char>>, align: TextAlign, text_field: Seq<char>) -> Result<TextPathCommandView, ErrorView> {
    match number_field(f[0], "text x"@) {
        Err(e) => Err(e),
        Ok(x) => match number_field(f[1], "text y"@) {
            Err(e) => Err(e),
            Ok(y) => match number_field(f[2], "text size"@) {
                Err(e) => Err(e),
                Ok(size) => match number_field(f[3], "letter spacing"@) {
                    Err(e) => Err(e),
                    Ok(letter_spacing) => match number_field(f[4], "line spacing"@) {
                        Err(e) => Err(e),
                        Ok(line_spacing) => match bool_flag(f[6], "bold"@) {
                            Err(e) => Err(e),
                            Ok(bold) => match bool_flag(f[7], "italic"@) {
                                Err(e) => Err(e),
                                Ok(italic) => match bool_flag(f[8], "separate_paths"@) {
                                    Err(e) => Err(e),
                                    Ok(separate_paths) => match unescape(text_field) {
                                        Err(e) => Err(e),
                                        Ok(text) => Ok(
                                            TextPathCommandView {
                                                x,
                                                y,
                                                size,
                                                letter_spacing,
                                                line_spacing,
                                                font_name: f[5],
                                                bold,
                                                italic,
                                                separate_paths,
                                                align,
                                                text,
                                            },
                                        ),
                                    },
                                },
                            },
                        },
                    },
                },
            },
        },
    }
}

/// The `text_path` that `data` writes: x, y, size, letter spacing, line spacing, font
/// name, bold, italic, separate paths, then either the text, or the alignment and the
/// text (which may hold tabs).
pub open spec fn text_path_command(data: Seq<char>) -> Result<TextPathCommandView, ErrorView> {
    let f = splitn(data, 11, '\t');
    if f.len() < 10 {
        Err(ErrorView::TextFieldCount(f.len() as usize))
    } else if f.len() >= 11 {
        match text_align(f[9]) {
            Err(e) => Err(e),
            Ok(align) => text_path_fields(f, align, f[10]),
        }
    } else {
        text_path_fields(
            f,
            TextAlign { horizontal: HorizontalAlign::Left, vertical: VerticalAlign::Top },
            f[9],
        )
    }
}

/// The alignment field of `text_path`.
fn parse_text_align(value: &[char]) -> (r: Result<TextAlign, InputError>)
    ensures
        result_view(r) == text_align(value@),
{
    let index: usize = match parse_usize(value) {
        Some(n) => n,
        None => {
            return Err(
                InputError::NotANumber { name: "text align".to_owned(), value: string_from(value) },
            );
        },
    };
    let horizontal: HorizontalAlign = if index % 3 == 0 {
        HorizontalAlign::Left
    } else if index % 3 == 1 {
        HorizontalAlign::Center
    } else {
        HorizontalAlign::Right
    };
    let vertical: VerticalAlign = if index / 3 == 0 {
        VerticalAlign::Top
    } else if index / 3 == 1 {
        VerticalAlign::Middle
    } else if index / 3 == 2 {
        VerticalAlign::Bottom
    } else {
        return Err(InputError::TextAlignOutOfRange(string_from(value)));
    };
    Ok(TextAlign { horizontal, vertical })
}

/// `value` with its escapes replaced.
fn unescape_text(value: &[char]) -> (r: Result<String, InputError>)
    ensures
        result_view(r) == unescape(value@),
{
    let mut out: Vec<char> = Vec::new();
    let mut i: usize = 0;
    assert(value@.skip(0) =~= value@);
    proof {
        match unescape(value@) {
            Ok(v) => {
                assert(out@ + v =~= v);
            },
            Err(_) => {},
        }
    }
    while i < value.len()
        invariant
            i <= value@.len(),
            unescape(value@) == match unescape(value@.skip(i as int)) {
                Ok(v) => Ok::<Seq<char>, ErrorView>(out@ + v),
                Err(e) => Err(e),
            },
        decreases value.len() - i,
    {
        let ghost rest = value@.skip(i as int);
        let ghost before = out@;
        assert(rest[0] == value@[i as int]);
        let ch: char = value[i];
        if ch != '\\' {
            out.push(ch);
            assert(rest.drop_first() =~= value@.skip(i + 1));
            proof {
                match unescape(value@.skip(i + 1)) {
                    Ok(v) => {
                        assert(before + (seq![ch] + v) =~= out@ + v);
                    },
                    Err(_) => {},
                }
            }
            i = i + 1;
        } else {
            if i + 1 == value.len() {
                return Err(invalid_input("text escape is incomplete"));
            }
            assert(rest[1] == value@[i + 1]);
            let next: char = value[i + 1];
            let c: char = if next == 'n' {
                '\n'
            } else if next == 't' {
                '\t'
            } else if next == '\\' {
                '\\'
            } else {
                return Err(InputError::UnsupportedEscape(next));
            };
            out.push(c);
            assert(rest.skip(2) =~= value@.skip(i + 2));
            proof {
                match unescape(value@.skip(i + 2)) {
                    Ok(v) => {
                        assert(before + (seq![c] + v) =~= out@ + v);
                    },
                    Err(_) => {},
                }
            }
            i = i + 2;
        }
    }
    assert(value@.skip(i as int) =~= Seq::<char>::empty());
    assert(out@ + Seq::<char>::empty() =~= out@);
    Ok(string_of(out))
}

/// A number field of `text_path`.
fn parse_number_field(value: &[char], name: &str) -> (r: Result<FloatLiteral, InputError>)
    ensures
        match r {
            Ok(l) => number_field(value@, name@) == Ok::<Seq<char>, ErrorView>(l@),
            Err(e) => number_field(value@, name@) == Err::<Seq<char>, ErrorView>(e@),
        },
{
    match FloatLiteral::parse(value) {
        Some(l) => Ok(l),
        None => Err(InputError::NotANumber { name: name.to_owned(), value: string_from(value) }),
    }
}

/// The `text_path` that `data` writes.
pub fn parse_text_path_command(data: &[char]) -> (r: Result<TextPathCommand, InputError>)
    ensures
        result_view(r) == text_path_command(data@),
{
    let fields: Vec<Vec<char>> = splitn_chars(data, 11, '\t');
    let ghost f = fields.deep_view();
    if fields.len() < 10 {
        return Err(InputError::TextFieldCount(fields.len()));
    }
    assert forall|k: int| 0 <= k < fields@.len() implies #[trigger] fields@[k]@ == f[k] by {}
    let (align, text_index): (TextAlign, usize) = if fields.len() >= 11 {
        (parse_text_align(&fields[9])?, 10)
    } else {
        (TextAlign { horizontal: HorizontalAlign::Left, vertical: VerticalAlign::Top }, 9)
    };
    let x: FloatLiteral = parse_number_field(&fields[0], "text x")?;
    let y: FloatLiteral = parse_number_field(&fields[1], "text y")?;
    let size: FloatLiteral = parse_number_field(&fields[2], "text size")?;
    let letter_spacing: FloatLiteral = parse_number_field(&fields[3], "letter spacing")?;
    let line_spacing: FloatLiteral = parse_number_field(&fields[4], "line spacing")?;
    let font_name: String = string_from(&fields[5]);
    let bold: bool = parse_bool_flag(&fields[6], "bold")?;
    let italic: bool = parse_bool_flag(&fields[7], "italic")?;
    let separate_paths: bool = parse_bool_flag(&fields[8], "separate_paths")?;
    let text: String = unescape_text(&fields[text_index])?;
    Ok(
        TextPathCommand {
            x,
            y,
            size,
            letter_spacing,
            line_spacing,
            font_name,
            bold,
            italic,
            separate_paths,
            align,
            text,
        },
    )
}

} // verus!

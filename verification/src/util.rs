//! Arguments shared by several commands: optional numbers, flags and colors.
use vstd::prelude::*;
use crate::chars::{chars_eq, split_ws, split_whitespace_chars, string_from, trim, trim_chars};
use crate::error::{invalid_input, ErrorView, InputError};
use crate::number::{i32_value, is_float_literal, parse_hex_u32, parse_i32, unsigned_value, FloatLiteral};

verus! {

/// A color as 8-bit alpha, red, green and blue channels (skia's `Color` holds the same
/// four channels in one `u32`).
#[derive(Clone, Copy, Debug, PartialEq, Eq, Structural)]
pub struct Color {
    pub a: u8,
    pub r: u8,
    pub g: u8,
    pub b: u8,
}

impl View for Color {
    type V = Color;

    open spec fn view(&self) -> Color {
        *self
    }
}

/// An `f32` argument: a literal that was given, or the whole number that stands for it
/// when it was left out.
#[derive(Debug, PartialEq, Eq)]
pub enum F32Arg {
    Literal(FloatLiteral),
    Whole(u32),
}

/// `F32Arg` with the literal as its characters.
pub enum F32ArgView {
    Literal(Seq<char>),
    Whole(u32),
}

impl View for F32Arg {
    type V = F32ArgView;

    open spec fn view(&self) -> F32ArgView {
        match self {
            F32Arg::Literal(l) => F32ArgView::Literal(l@),
            F32Arg::Whole(n) => F32ArgView::Whole(*n),
        }
    }
}

/// The fill color of `fill`: a color, and the opacity that the program that draws applies
/// to it.
#[derive(Debug, PartialEq, Eq)]
pub struct FillColor {
    pub color: Color,
    pub opacity: F32Arg,
}

/// `FillColor` with its opacity as a character sequence.
pub struct FillColorView {
    pub color: Color,
    pub opacity: F32ArgView,
}

impl View for FillColor {
    type V = FillColorView;

    open spec fn view(&self) -> FillColorView {
        FillColorView { color: self.color, opacity: self.opacity@ }
    }
}

/// The optional `f32` argument at `index` of `tokens`.
pub open spec fn optional_f32(tokens: Seq<Seq<char>>, index: int, default: u32, name: Seq<char>) -> Result<F32ArgView, ErrorView> {
    if 0 <= index < tokens.len() {
        if is_float_literal(tokens[index]) {
            Ok(F32ArgView::Literal(tokens[index]))
        } else {
            Err(ErrorView::NotANumber { name, value: tokens[index] })
        }
    } else {
        Ok(F32ArgView::Whole(default))
    }
}

/// The optional `i32` argument at `index` of `tokens`.
pub open spec fn optional_i32(tokens: Seq<Seq<char>>, index: int, default: i32, name: Seq<char>) -> Result<i32, ErrorView> {
    if 0 <= index < tokens.len() {
        match i32_value(tokens[index]) {
            Some(n) => Ok(n),
            None => Err(ErrorView::NotAnInteger { name, value: tokens[index] }),
        }
    } else {
        Ok(default)
    }
}

/// A flag written `0` or `1`.
pub open spec fn bool_flag(value: Seq<char>, name: Seq<char>) -> Result<bool, ErrorView> {
    if value == seq!['0'] {
        Ok(false)
    } else if value == seq!['1'] {
        Ok(true)
    } else {
        Err(ErrorView::NotAFlag { name, value })
    }
}

/// The opaque color whose red, green and blue channels are bits 16..24, 8..16 and 0..8
/// of `rgb` (skia's `Color::from_argb(255, ..)`).
pub open spec fn opaque_color(rgb: u32) -> Color {
    Color {
        a: 255,
        r: ((rgb >> 16u32) & 0xffu32) as u8,
        g: ((rgb >> 8u32) & 0xffu32) as u8,
        b: (rgb & 0xffu32) as u8,
    }
}

/// `s` without one leading `#`.
pub open spec fn strip_hash(s: Seq<char>) -> Seq<char> {
    if s.len() > 0 && s[0] == '#' {
        s.drop_first()
    } else {
        s
    }
}

/// A color written in hexadecimal, with or without a leading `#`, with whitespace around.
pub open spec fn hex_color(value: Seq<char>) -> Result<Color, ErrorView> {
    match unsigned_value(strip_hash(trim(value)), 16, u32::MAX as int) {
        Some(rgb) => Ok(opaque_color(rgb as u32)),
        None => Err(ErrorView::InvalidColor(value)),
    }
}

/// The data of `fill`: a color, then an optional opacity (1 where it is left out).
pub open spec fn fill_color(data: Seq<char>) -> Result<FillColorView, ErrorView> {
    let tokens = split_ws(data);
    if tokens.len() == 0 {
        Err(ErrorView::InvalidInput("fill color is missing"@))
    } else {
        match hex_color(tokens[0]) {
            Err(e) => Err(e),
            Ok(color) => match optional_f32(tokens, 1, 1, "fill opacity"@) {
                Err(e) => Err(e),
                Ok(opacity) => Ok(FillColorView { color, opacity }),
            },
        }
    }
}

/// The `f32` at `index` of `tokens`, or `default` where there is no such token.
pub fn parse_optional_f32(tokens: &Vec<Vec<char>>, index: usize, default: u32, name: &str) -> (r: Result<F32Arg, InputError>)
    ensures
        crate::error::result_view(r) == optional_f32(tokens.deep_view(), index as int, default, name@),
{
    if index < tokens.len() {
        let t: &Vec<char> = &tokens[index];
        assert(t@ == tokens.deep_view()[index as int]);
        match FloatLiteral::parse(t) {
            Some(l) => Ok(F32Arg::Literal(l)),
            None => Err(InputError::NotANumber { name: name.to_owned(), value: string_from(t) }),
        }
    } else {
        Ok(F32Arg::Whole(default))
    }
}

/// The `i32` at `index` of `tokens`, or `default` where there is no such token.
pub fn parse_optional_i32(tokens: &Vec<Vec<char>>, index: usize, default: i32, name: &str) -> (r: Result<i32, InputError>)
    ensures
        crate::error::result_view(r) == optional_i32(tokens.deep_view(), index as int, default, name@),
{
    if index < tokens.len() {
        let t: &Vec<char> = &tokens[index];
        assert(t@ == tokens.deep_view()[index as int]);
        match parse_i32(t) {
            Some(n) => Ok(n),
            None => Err(InputError::NotAnInteger { name: name.to_owned(), value: string_from(t) }),
        }
    } else {
        Ok(default)
    }
}

/// A flag: `0` is false and `1` is true.
pub fn parse_bool_flag(value: &[char], name: &str) -> (r: Result<bool, InputError>)
    ensures
        crate::error::result_view(r) == bool_flag(value@, name@),
{
    proof {
        reveal_strlit("0");
        reveal_strlit("1");
        assert("0"@ =~= seq!['0']);
        assert("1"@ =~= seq!['1']);
    }
    if chars_eq(value, "0") {
        Ok(false)
    } else if chars_eq(value, "1") {
        Ok(true)
    } else {
        Err(InputError::NotAFlag { name: name.to_owned(), value: string_from(value) })
    }
}

/// An opaque color written in hexadecimal (`#rrggbb` or `rrggbb`).
pub fn parse_hex_color(value: &[char]) -> (r: Result<Color, InputError>)
    ensures
        crate::error::result_view(r) == hex_color(value@),
{
    let t: Vec<char> = trim_chars(value);
    let start: usize = if t.len() > 0 && t[0] == '#' {
        1
    } else {
        0
    };
    let hex: Vec<char> = crate::chars::sub_chars(&t, start, t.len());
    assert(hex@ =~= strip_hash(trim(value@)));
    match parse_hex_u32(&hex) {
        Some(rgb) => Ok(
            Color {
                a: 255,
                r: ((rgb >> 16u32) & 0xffu32) as u8,
                g: ((rgb >> 8u32) & 0xffu32) as u8,
                b: (rgb & 0xffu32) as u8,
            },
        ),
        None => Err(InputError::InvalidColor(string_from(value))),
    }
}

/// The data of `fill`: a color, then an optional opacity.
pub fn parse_fill_color(data: &[char]) -> (r: Result<FillColor, InputError>)
    ensures
        crate::error::result_view(r) == fill_color(data@),
{
    let tokens: Vec<Vec<char>> = split_whitespace_chars(data);
    if tokens.len() == 0 {
        return Err(invalid_input("fill color is missing"));
    }
    assert(tokens[0]@ == tokens.deep_view()[0]);
    let color: Color = match parse_hex_color(&tokens[0]) {
        Ok(c) => c,
        Err(e) => return Err(e),
    };
    let opacity: F32Arg = match parse_optional_f32(&tokens, 1, 1, "fill opacity") {
        Ok(o) => o,
        Err(e) => return Err(e),
    };
    Ok(FillColor { color, opacity })
}

} // verus!

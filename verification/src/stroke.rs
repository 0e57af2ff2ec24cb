//! The data of `stroke`: color, width, dash pattern, cap, join, miter limit, trim and
//! opacity, in that order, separated by whitespace.
use vstd::prelude::*;
use crate::chars::{chars_eq, split_ws, split_whitespace_chars};
use crate::error::{invalid_input, result_view, ErrorView, InputError};
use crate::number::{is_float_literal, FloatLiteral};
use crate::util::{
    hex_color, optional_f32, optional_i32, parse_hex_color, parse_optional_f32,
    parse_optional_i32, Color, F32Arg, F32ArgView,
};

verus! {

/// The shape at the ends of a stroked line.
#[derive(Clone, Copy, Debug, PartialEq, Eq, Structural)]
pub enum Cap {
    Butt,
    Square,
    Round,
}

/// The shape where two stroked segments meet.
#[derive(Clone, Copy, Debug, PartialEq, Eq, Structural)]
pub enum Join {
    Miter,
    Round,
    Bevel,
}

impl View for Cap {
    type V = Cap;

    open spec fn view(&self) -> Cap {
        *self
    }
}

impl View for Join {
    type V = Join;

    open spec fn view(&self) -> Join {
        *self
    }
}

/// The part of each stroked path that is drawn: start and stop along it, and how much the
/// parts of consecutive paths overlap. The program that draws clamps them to 0..1.
#[derive(Debug, PartialEq, Eq)]
pub struct TrimEffect {
    pub start: F32Arg,
    pub stop: F32Arg,
    pub overlap: F32Arg,
}

/// `TrimEffect` with its numbers as character sequences.
pub struct TrimEffectView {
    pub start: F32ArgView,
    pub stop: F32ArgView,
    pub overlap: F32ArgView,
}

impl View for TrimEffect {
    type V = TrimEffectView;

    open spec fn view(&self) -> TrimEffectView {
        TrimEffectView { start: self.start@, stop: self.stop@, overlap: self.overlap@ }
    }
}

/// A parsed `stroke`. The dash intervals are those written between the braces, before
/// the program that draws drops the ones that are not positive.
#[derive(Debug, PartialEq, Eq)]
pub struct StrokeStyle {
    pub color: Color,
    pub opacity: F32Arg,
    pub width: F32Arg,
    pub dash_intervals: Option<Vec<FloatLiteral>>,
    pub dash_phase: F32Arg,
    pub cap: Cap,
    pub join: Join,
    pub miter_limit: F32Arg,
    pub trim: Option<TrimEffect>,
}

/// `StrokeStyle` with its numbers as character sequences.
pub struct StrokeStyleView {
    pub color: Color,
    pub opacity: F32ArgView,
    pub width: F32ArgView,
    pub dash_intervals: Option<Seq<Seq<char>>>,
    pub dash_phase: F32ArgView,
    pub cap: Cap,
    pub join: Join,
    pub miter_limit: F32ArgView,
    pub trim: Option<TrimEffectView>,
}

/// The characters of each literal of `v`.
pub open spec fn literals_view(v: Seq<FloatLiteral>) -> Seq<Seq<char>> {
    v.map_values(|l: FloatLiteral| l@)
}

impl View for StrokeStyle {
    type V = StrokeStyleView;

    open spec fn view(&self) -> StrokeStyleView {
        StrokeStyleView {
            color: self.color,
            opacity: self.opacity@,
            width: self.width@,
            dash_intervals: match self.dash_intervals {
                Some(v) => Some(literals_view(v@)),
                None => None,
            },
            dash_phase: self.dash_phase@,
            cap: self.cap,
            join: self.join,
            miter_limit: self.miter_limit@,
            trim: match self.trim {
                Some(t) => Some(t@),
                None => None,
            },
        }
    }
}

/// The numbers of a dash pattern from `j` on, up to its closing `}`, and the index after it.
pub open spec fn dash_numbers(tokens: Seq<Seq<char>>, j: int) -> Result<(Seq<Seq<char>>, int), ErrorView>
    decreases tokens.len() - j,
{
    if j < 0 || j >= tokens.len() {
        Err(ErrorView::InvalidInput("dash intervals must end with '}'"@))
    } else if tokens[j] == "}"@ {
        Ok((Seq::empty(), j + 1))
    } else if !is_float_literal(tokens[j]) {
        Err(ErrorView::NotANumber { name: "dash interval"@, value: tokens[j] })
    } else {
        match dash_numbers(tokens, j + 1) {
            Ok((v, n)) => Ok((seq![tokens[j]] + v, n)),
            Err(e) => Err(e),
        }
    }
}

/// A dash pattern at `start`: `{}`, or `{` then numbers then `}`; with the index after it.
pub open spec fn dash_intervals(tokens: Seq<Seq<char>>, start: int) -> Result<(Seq<Seq<char>>, int), ErrorView> {
    if 0 <= start < tokens.len() && tokens[start] == "{}"@ {
        Ok((Seq::empty(), start + 1))
    } else if !(0 <= start < tokens.len() && tokens[start] == "{"@) {
        Err(ErrorView::InvalidInput("dash intervals must start with '{'"@))
    } else {
        dash_numbers(tokens, start + 1)
    }
}

/// The index after the first `}` at or after `j`.
pub open spec fn brace_end(tokens: Seq<Seq<char>>, j: int) -> Result<int, ErrorView>
    decreases tokens.len() - j,
{
    if j < 0 || j >= tokens.len() {
        Err(ErrorView::InvalidInput("braced block must end with '}'"@))
    } else if tokens[j] == "}"@ {
        Ok(j + 1)
    } else {
        brace_end(tokens, j + 1)
    }
}

/// The dash part of a stroke, which starts at token 3: the pattern where the stroke is
/// dashed; otherwise a `{}` or a braced block that is skipped, or nothing. With the index
/// after it.
pub open spec fn dash_section(tokens: Seq<Seq<char>>, dashed: bool) -> Result<(Option<Seq<Seq<char>>>, int), ErrorView> {
    if dashed {
        match dash_intervals(tokens, 3) {
            Ok((v, n)) => Ok((Some(v), n)),
            Err(e) => Err(e),
        }
    } else if 3 < tokens.len() && tokens[3] == "{}"@ {
        Ok((None, 4))
    } else if 3 < tokens.len() && tokens[3] == "{"@ {
        match brace_end(tokens, 4) {
            Ok(n) => Ok((None, n)),
            Err(e) => Err(e),
        }
    } else {
        Ok((None, 3))
    }
}

/// The cap that `value` numbers.
pub open spec fn cap_of(value: i32) -> Result<Cap, ErrorView> {
    if value == 0 {
        Ok(Cap::Butt)
    } else if value == 1 {
        Ok(Cap::Square)
    } else if value == 2 {
        Ok(Cap::Round)
    } else {
        Err(ErrorView::UnsupportedCap(value))
    }
}

/// The join that `value` numbers.
pub open spec fn join_of(value: i32) -> Result<Join, ErrorView> {
    if value == 0 {
        Ok(Join::Miter)
    } else if value == 1 {
        Ok(Join::Round)
    } else if value == 2 {
        Ok(Join::Bevel)
    } else {
        Err(ErrorView::UnsupportedJoin(value))
    }
}

/// The trim at `start`: none where the tokens end before it, else exactly three numbers.
pub open spec fn stroke_trim(tokens: Seq<Seq<char>>, start: int) -> Result<Option<TrimEffectView>, ErrorView> {
    if tokens.len() <= start {
        Ok(None)
    } else if tokens.len() < start + 3 {
        Err(ErrorView::InvalidInput("stroke trim expects start, stop and overlap"@))
    } else {
        match optional_f32(tokens, start, 0, "trim start"@) {
            Err(e) => Err(e),
            Ok(a) => match optional_f32(tokens, start + 1, 1, "trim stop"@) {
                Err(e) => Err(e),
                Ok(b) => match optional_f32(tokens, start + 2, 1, "trim overlap"@) {
                    Err(e) => Err(e),
                    Ok(c) => Ok(Some(TrimEffectView { start: a, stop: b, overlap: c })),
                },
            },
        }
    }
}

/// The stroke that the tokens `tokens` write, from the dash phase on, given what comes
/// before it.
pub open spec fn stroke_rest(
    tokens: Seq<Seq<char>>,
    color: Color,
    width: F32ArgView,
    dash: Option<Seq<Seq<char>>>,
    i: int,
) -> Result<StrokeStyleView, ErrorView> {
    match optional_f32(tokens, i, 0, "dash phase"@) {
        Err(e) => Err(e),
        Ok(dash_phase) => match optional_i32(tokens, i + 1, 0, "stroke cap"@) {
            Err(e) => Err(e),
            Ok(c) => match cap_of(c) {
                Err(e) => Err(e),
                Ok(cap) => match optional_i32(tokens, i + 2, 0, "stroke join"@) {
                    Err(e) => Err(e),
                    Ok(j) => match join_of(j) {
                        Err(e) => Err(e),
                        Ok(join) => match optional_f32(tokens, i + 3, 4, "miter limit"@) {
                            Err(e) => Err(e),
                            Ok(miter_limit) => match stroke_trim(tokens, i + 4) {
                                Err(e) => Err(e),
                                Ok(trim) => match optional_f32(tokens, i + 7, 1, "stroke opacity"@) {
                                    Err(e) => Err(e),
                                    Ok(opacity) => Ok(
                                        StrokeStyleView {
                                            color,
                                            opacity,
                                            width,
                                            dash_intervals: dash,
                                            dash_phase,
                                            cap,
                                            join,
                                            miter_limit,
                                            trim,
                                        },
                                    ),
                                },
                            },
                        },
                    },
                },
            },
        },
    }
}

/// The stroke that `data` writes: a color; then, each optional, a width (4), a dashed flag
/// (0), the dash part, a dash phase (0), a cap (0), a join (0), a miter limit (4), a trim
/// and an opacity (1).
pub open spec fn stroke_style(data: Seq<char>) -> Result<StrokeStyleView, ErrorView> {
    let tokens = split_ws(data);
    if tokens.len() == 0 {
        Err(ErrorView::InvalidInput("stroke color is missing"@))
    } else {
        match hex_color(tokens[0]) {
            Err(e) => Err(e),
            Ok(color) => match optional_f32(tokens, 1, 4, "stroke width"@) {
                Err(e) => Err(e),
                Ok(width) => match optional_i32(tokens, 2, 0, "stroke dashed flag"@) {
                    Err(e) => Err(e),
                    Ok(flag) => match dash_section(tokens, flag != 0) {
                        Err(e) => Err(e),
                        Ok((dash, i)) => stroke_rest(tokens, color, width, dash, i),
                    },
                },
            },
        }
    }
}

/// The dash pattern at `start` and the index after it.
fn parse_dash_intervals(tokens: &Vec<Vec<char>>, start_index: usize) -> (r: Result<(Vec<FloatLiteral>, usize), InputError>)
    requires
        tokens@.len() < usize::MAX,
    ensures
        match r {
            Ok((v, n)) => dash_intervals(tokens.deep_view(), start_index as int) == Ok::<(Seq<Seq<char>>, int), ErrorView>((literals_view(v@), n as int)),
            Err(e) => dash_intervals(tokens.deep_view(), start_index as int) == Err::<(Seq<Seq<char>>, int), ErrorView>(e@),
        },
        r matches Ok((_, n)) ==> n <= tokens@.len(),
{
    let ghost tv = tokens.deep_view();
    if start_index < tokens.len() {
        assert(tokens[start_index as int]@ == tv[start_index as int]);
    }
    if start_index < tokens.len() && chars_eq(&tokens[start_index], "{}") {
        let v: Vec<FloatLiteral> = Vec::new();
        assert(literals_view(v@) =~= Seq::<Seq<char>>::empty());
        return Ok((v, start_index + 1));
    }
    if !(start_index < tokens.len() && chars_eq(&tokens[start_index], "{")) {
        return Err(invalid_input("dash intervals must start with '{'"));
    }
    let mut intervals: Vec<FloatLiteral> = Vec::new();
    let mut index: usize = start_index + 1;
    assert(literals_view(intervals@) =~= Seq::<Seq<char>>::empty());
    proof {
        match dash_numbers(tv, index as int) {
            Ok((v, n)) => {
                assert(literals_view(intervals@) + v =~= v);
            },
            Err(_) => {},
        }
    }
    while index < tokens.len()
        invariant
            tv == tokens.deep_view(),
            start_index < index <= tokens@.len(),
            tokens@.len() < usize::MAX,
            dash_intervals(tv, start_index as int) == match dash_numbers(tv, index as int) {
                Ok((v, n)) => Ok::<(Seq<Seq<char>>, int), ErrorView>((literals_view(intervals@) + v, n)),
                Err(e) => Err(e),
            },
        decreases tokens.len() - index,
    {
        assert(tokens[index as int]@ == tv[index as int]);
        if chars_eq(&tokens[index], "}") {
            assert(literals_view(intervals@) + Seq::<Seq<char>>::empty() =~= literals_view(intervals@));
            return Ok((intervals, index + 1));
        }
        match FloatLiteral::parse(&tokens[index]) {
            Some(l) => {
                let ghost before = intervals@;
                intervals.push(l);
                assert(literals_view(intervals@) =~= literals_view(before).push(tv[index as int]));
                proof {
                    match dash_numbers(tv, index + 1) {
                        Ok((v, n)) => {
                            assert(literals_view(before) + (seq![tv[index as int]] + v)
                                =~= literals_view(intervals@) + v);
                        },
                        Err(_) => {},
                    }
                }
            },
            None => {
                return Err(
                    InputError::NotANumber {
                        name: "dash interval".to_owned(),
                        value: crate::chars::string_from(&tokens[index]),
                    },
                );
            },
        }
        index = index + 1;
    }
    Err(invalid_input("dash intervals must end with '}'"))
}

/// The index after the `}` that closes the braced block at `start`.
fn skip_braced_block(tokens: &Vec<Vec<char>>, start_index: usize) -> (r: Result<usize, InputError>)
    requires
        tokens@.len() < usize::MAX,
        start_index < tokens@.len(),
    ensures
        match r {
            Ok(n) => brace_end(tokens.deep_view(), start_index + 1) == Ok::<int, ErrorView>(n as int),
            Err(e) => brace_end(tokens.deep_view(), start_index + 1) == Err::<int, ErrorView>(e@),
        },
        r matches Ok(n) ==> n <= tokens@.len(),
{
    let ghost tv = tokens.deep_view();
    let mut index: usize = start_index + 1;
    while index < tokens.len()
        invariant
            tv == tokens.deep_view(),
            start_index < index <= tokens@.len(),
            tokens@.len() < usize::MAX,
            brace_end(tv, start_index + 1) == brace_end(tv, index as int),
        decreases tokens.len() - index,
    {
        assert(tokens[index as int]@ == tv[index as int]);
        if chars_eq(&tokens[index], "}") {
            return Ok(index + 1);
        }
        index = index + 1;
    }
    Err(invalid_input("braced block must end with '}'"))
}

/// The cap that `value` numbers: 0 butt, 1 square, 2 round.
fn parse_cap(value: i32) -> (r: Result<Cap, InputError>)
    ensures
        result_view(r) == cap_of(value),
{
    match value {
        0 => Ok(Cap::Butt),
        1 => Ok(Cap::Square),
        2 => Ok(Cap::Round),
        _ => Err(InputError::UnsupportedCap(value)),
    }
}

/// The join that `value` numbers: 0 miter, 1 round, 2 bevel.
fn parse_join(value: i32) -> (r: Result<Join, InputError>)
    ensures
        result_view(r) == join_of(value),
{
    match value {
        0 => Ok(Join::Miter),
        1 => Ok(Join::Round),
        2 => Ok(Join::Bevel),
        _ => Err(InputError::UnsupportedJoin(value)),
    }
}


/// The trim at `start`: none, or three numbers.
fn parse_stroke_trim(tokens: &Vec<Vec<char>>, start_index: usize) -> (r: Result<Option<TrimEffect>, InputError>)
    requires
        start_index <= usize::MAX - 3,
    ensures
        match r {
            Ok(Some(t)) => stroke_trim(tokens.deep_view(), start_index as int) == Ok::<Option<TrimEffectView>, ErrorView>(Some(t@)),
            Ok(None) => stroke_trim(tokens.deep_view(), start_index as int) == Ok::<Option<TrimEffectView>, ErrorView>(None),
            Err(e) => stroke_trim(tokens.deep_view(), start_index as int) == Err::<Option<TrimEffectView>, ErrorView>(e@),
        },
{
    if tokens.len() <= start_index {
        return Ok(None);
    }
    if tokens.len() < start_index + 3 {
        return Err(invalid_input("stroke trim expects start, stop and overlap"));
    }
    let start: F32Arg = parse_optional_f32(tokens, start_index, 0, "trim start")?;
    let stop: F32Arg = parse_optional_f32(tokens, start_index + 1, 1, "trim stop")?;
    let overlap: F32Arg = parse_optional_f32(tokens, start_index + 2, 1, "trim overlap")?;
    Ok(Some(TrimEffect { start, stop, overlap }))
}

/// The stroke that `data` writes: a color; then, each optional, a width, a dashed flag,
/// the dash part, a dash phase, a cap, a join, a miter limit, a trim and an opacity.
pub fn parse_stroke_data(data: &[char]) -> (r: Result<StrokeStyle, InputError>)
    ensures
        result_view(r) == stroke_style(data@),
{
    let tokens: Vec<Vec<char>> = split_whitespace_chars(data);
    let ghost tv = tokens.deep_view();
    let data_len: usize = data.len();
    assert(tokens@.len() < usize::MAX);
    if tokens.len() == 0 {
        return Err(invalid_input("stroke color is missing"));
    }
    assert(tokens[0]@ == tv[0]);
    let color: Color = parse_hex_color(&tokens[0])?;
    let width: F32Arg = parse_optional_f32(&tokens, 1, 4, "stroke width")?;
    let dashed: bool = parse_optional_i32(&tokens, 2, 0, "stroke dashed flag")? != 0;
    let mut index: usize = 3;
    let dash_intervals: Option<Vec<FloatLiteral>> = if dashed {
        let (intervals, next_index) = parse_dash_intervals(&tokens, index)?;
        index = next_index;
        Some(intervals)
    } else {
        if 3 < tokens.len() {
            assert(tokens[3]@ == tv[3]);
        }
        if index < tokens.len() && chars_eq(&tokens[index], "{}") {
            index = index + 1;
        } else if index < tokens.len() && chars_eq(&tokens[index], "{") {
            index = skip_braced_block(&tokens, index)?;
        }
        None
    };
    assert(index <= tokens@.len() + 3);
    let dash_phase: F32Arg = parse_optional_f32(&tokens, index, 0, "dash phase")?;
    let cap: Cap = parse_cap(parse_optional_i32(&tokens, index + 1, 0, "stroke cap")?)?;
    let join: Join = parse_join(parse_optional_i32(&tokens, index + 2, 0, "stroke join")?)?;
    let miter_limit: F32Arg = parse_optional_f32(&tokens, index + 3, 4, "miter limit")?;
    let trim: Option<TrimEffect> = parse_stroke_trim(&tokens, index + 4)?;
    let opacity: F32Arg = parse_optional_f32(&tokens, index + 7, 1, "stroke opacity")?;
    Ok(
        StrokeStyle {
            color,
            opacity,
            width,
            dash_intervals,
            dash_phase,
            cap,
            join,
            miter_limit,
            trim,
        },
    )
}


/// The dash pattern made from the positive intervals of a stroke: none where there are
/// none; where their count is odd, the intervals twice over, so that dashes and gaps
/// alternate.
pub fn even_dash_pattern<T: Copy>(intervals: Vec<T>) -> (r: Option<Vec<T>>)
    ensures
        intervals@.len() == 0 ==> r is None,
        intervals@.len() > 0 && intervals@.len() % 2 == 0 ==> r == Some(intervals),
        intervals@.len() % 2 == 1 ==> (r matches Some(v) && v@ == intervals@ + intervals@),
        r matches Some(v) ==> v@.len() > 0 && v@.len() % 2 == 0,
{
    if intervals.len() == 0 {
        return None;
    }
    if intervals.len() % 2 == 0 {
        return Some(intervals);
    }
    let mut doubled: Vec<T> = Vec::new();
    let mut i: usize = 0;
    while i < intervals.len()
        invariant
            i <= intervals@.len(),
            doubled@ == intervals@.take(i as int),
        decreases intervals.len() - i,
    {
        doubled.push(intervals[i]);
        assert(intervals@.take(i + 1) =~= intervals@.take(i as int).push(intervals@[i as int]));
        i = i + 1;
    }
    assert(intervals@.take(i as int) =~= intervals@);
    let mut j: usize = 0;
    while j < intervals.len()
        invariant
            j <= intervals@.len(),
            doubled@ == intervals@ + intervals@.take(j as int),
        decreases intervals.len() - j,
    {
        doubled.push(intervals[j]);
        assert(intervals@.take(j + 1) =~= intervals@.take(j as int).push(intervals@[j as int]));
        assert(intervals@ + intervals@.take(j + 1) =~= (intervals@ + intervals@.take(j as int)).push(intervals@[j as int]));
        j = j + 1;
    }
    assert(intervals@.take(j as int) =~= intervals@);
    Some(doubled)
}

} // verus!

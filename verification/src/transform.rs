//! The data of `transform`: SVG transform functions such as `translate(10, 20)` or
//! `rotate(45 0 0)`, one after another.
use vstd::prelude::*;
use crate::chars::{
    chars_eq, find_char, index_of, lemma_prefix_while_len, not_char, prefix_while, skip_ws,
    split_ws, split_whitespace_chars, string_from, sub_chars, trim, trim_chars, trim_start,
    ws_pred,
};
use crate::error::{result_view, ErrorView, InputError};
use crate::number::{is_float_literal, FloatLiteral};
use crate::stroke::literals_view;

verus! {

/// The SVG transform functions.
#[derive(Clone, Copy, Debug, PartialEq, Eq, Structural)]
pub enum TransformKind {
    /// `matrix(a b c d e f)`.
    Matrix,
    /// `translate(x [y])`.
    Translate,
    /// `scale(x [y])`.
    Scale,
    /// `rotate(angle [cx cy])`.
    Rotate,
    /// `skewX(angle)`.
    SkewX,
    /// `skewY(angle)`.
    SkewY,
}

impl View for TransformKind {
    type V = TransformKind;

    open spec fn view(&self) -> TransformKind {
        *self
    }
}

/// One transform function with its arguments, of a count that the function takes.
#[derive(Debug, PartialEq, Eq)]
pub struct TransformOp {
    pub kind: TransformKind,
    pub args: Vec<FloatLiteral>,
}

/// `TransformOp` with its arguments as character sequences.
pub struct TransformOpView {
    pub kind: TransformKind,
    pub args: Seq<Seq<char>>,
}

impl View for TransformOp {
    type V = TransformOpView;

    open spec fn view(&self) -> TransformOpView {
        TransformOpView { kind: self.kind, args: literals_view(self.args@) }
    }
}

/// The views of the transform functions of `ops`.
pub open spec fn ops_view(ops: Seq<TransformOp>) -> Seq<TransformOpView> {
    ops.map_values(|o: TransformOp| o@)
}

/// `s` with each comma made a space.
pub open spec fn commas_to_spaces(s: Seq<char>) -> Seq<char> {
    s.map_values(|c: char| if c == ',' { ' ' } else { c })
}

/// `tokens` where all are numbers; else the first that is not.
pub open spec fn float_tokens(tokens: Seq<Seq<char>>) -> Result<Seq<Seq<char>>, ErrorView>
    decreases tokens.len(),
{
    if tokens.len() == 0 {
        Ok(Seq::empty())
    } else if !is_float_literal(tokens[0]) {
        Err(ErrorView::NotANumber { name: "transform value"@, value: tokens[0] })
    } else {
        match float_tokens(tokens.drop_first()) {
            Ok(r) => Ok(seq![tokens[0]] + r),
            Err(e) => Err(e),
        }
    }
}

/// The numbers between the parentheses of a transform function, separated by whitespace
/// or commas.
pub open spec fn transform_numbers(args: Seq<char>) -> Result<Seq<Seq<char>>, ErrorView> {
    float_tokens(split_ws(commas_to_spaces(args)))
}

/// Whether `count` lies in `min..=max`; else the error that says so for `name`.
pub open spec fn arg_count(name: Seq<char>, count: nat, min: usize, max: usize) -> Result<(), ErrorView> {
    if min <= count <= max {
        Ok(())
    } else {
        Err(ErrorView::ArgumentCount { name, min, max, got: count as usize })
    }
}

/// The transform function named `name`, where it takes `count` arguments.
pub open spec fn transform_kind(name: Seq<char>, count: nat) -> Result<TransformKind, ErrorView> {
    if name == "matrix"@ {
        match arg_count(name, count, 6, 6) {
            Ok(_) => Ok(TransformKind::Matrix),
            Err(e) => Err(e),
        }
    } else if name == "translate"@ {
        match arg_count(name, count, 1, 2) {
            Ok(_) => Ok(TransformKind::Translate),
            Err(e) => Err(e),
        }
    } else if name == "scale"@ {
        match arg_count(name, count, 1, 2) {
            Ok(_) => Ok(TransformKind::Scale),
            Err(e) => Err(e),
        }
    } else if name == "rotate"@ {
        match arg_count(name, count, 1, 3) {
            Ok(_) => Ok(TransformKind::Rotate),
            Err(e) => Err(e),
        }
    } else if name == "skewX"@ {
        match arg_count(name, count, 1, 1) {
            Ok(_) => Ok(TransformKind::SkewX),
            Err(e) => Err(e),
        }
    } else if name == "skewY"@ {
        match arg_count(name, count, 1, 1) {
            Ok(_) => Ok(TransformKind::SkewY),
            Err(e) => Err(e),
        }
    } else {
        Err(ErrorView::UnsupportedTransform(name))
    }
}

/// Whether `op` has as many arguments as its function takes: six for `matrix`, one or two
/// for `translate` and `scale`, one to three for `rotate`, one for the skews.
pub open spec fn arity_ok(op: TransformOpView) -> bool {
    let n = op.args.len();
    match op.kind {
        TransformKind::Matrix => n == 6,
        TransformKind::Translate => 1 <= n <= 2,
        TransformKind::Scale => 1 <= n <= 2,
        TransformKind::Rotate => 1 <= n <= 3,
        TransformKind::SkewX => n == 1,
        TransformKind::SkewY => n == 1,
    }
}

/// The transform functions of a transform list that come before the first one that is
/// refused, in order, and the refusal, where there is one.
pub struct ParsedTransforms {
    pub ops: Vec<TransformOp>,
    pub error: Option<InputError>,
}

/// `ParsedTransforms` taken by its views.
pub struct ParsedTransformsView {
    pub ops: Seq<TransformOpView>,
    pub error: Option<ErrorView>,
}

impl View for ParsedTransforms {
    type V = ParsedTransformsView;

    open spec fn view(&self) -> ParsedTransformsView {
        ParsedTransformsView {
            ops: ops_view(self.ops@),
            error: match self.error {
                Some(e) => Some(e@),
                None => None,
            },
        }
    }
}

/// `parsed` with the functions `ops` before its own.
pub open spec fn after_ops(ops: Seq<TransformOpView>, parsed: ParsedTransformsView) -> ParsedTransformsView {
    ParsedTransformsView { ops: ops + parsed.ops, error: parsed.error }
}

/// The refusal `e`, with no function before it.
pub open spec fn refused(e: ErrorView) -> ParsedTransformsView {
    ParsedTransformsView { ops: Seq::empty(), error: Some(e) }
}

/// The transform functions that `remain` writes, in order, up to the first one that is
/// refused, and that refusal: a piece without `(`, a `(` without its `)`, an argument
/// that is no number, or a function that is unknown or has a wrong number of arguments.
pub open spec fn transform_ops(remain: Seq<char>) -> ParsedTransformsView
    decreases remain.len(),
{
    if remain.len() == 0 {
        ParsedTransformsView { ops: Seq::empty(), error: None }
    } else {
        let r = trim_start(remain);
        let open = index_of(r, '(');
        proof {
            lemma_prefix_while_len(remain, ws_pred());
        }
        if open >= r.len() {
            refused(ErrorView::InvalidTransform(r))
        } else {
            let name = trim(r.take(open as int));
            let after = r.skip(open + 1int);
            let close = index_of(after, ')');
            if close >= after.len() {
                refused(ErrorView::MissingParen(r))
            } else {
                match transform_numbers(after.take(close as int)) {
                    Err(e) => refused(e),
                    Ok(args) => match transform_kind(name, args.len()) {
                        Err(e) => refused(e),
                        Ok(kind) => after_ops(
                            seq![TransformOpView { kind, args }],
                            transform_ops(after.skip(close + 1int)),
                        ),
                    },
                }
            }
        }
    }
}

/// The transform functions that `data` writes, up to the first refused one.
pub open spec fn svg_transform(data: Seq<char>) -> ParsedTransformsView {
    transform_ops(trim(data))
}

/// Every transform function that is handed on, before a refusal or without one, has as
/// many arguments as it takes, so the program that draws finds each argument it reads.
pub proof fn lemma_transform_arity(remain: Seq<char>)
    ensures
        forall|i: int| 0 <= i < transform_ops(remain).ops.len() ==> #[trigger] arity_ok(transform_ops(remain).ops[i]),
    decreases remain.len(),
{
    if remain.len() > 0 {
        let r = trim_start(remain);
        let open = index_of(r, '(');
        lemma_prefix_while_len(remain, ws_pred());
        if open < r.len() {
            let after = r.skip(open + 1int);
            let close = index_of(after, ')');
            if close < after.len() {
                lemma_transform_arity(after.skip(close + 1int));
                let ops = transform_ops(remain).ops;
                let rest = transform_ops(after.skip(close + 1int)).ops;
                assert forall|i: int| 0 <= i < ops.len() implies #[trigger] arity_ok(ops[i]) by {
                    if i > 0 {
                        assert(ops[i] == rest[i - 1]);
                    }
                }
            }
        }
    }
}

/// The numbers between the parentheses of a transform function.
fn parse_transform_numbers(args: &[char]) -> (r: Result<Vec<FloatLiteral>, InputError>)
    ensures
        match r {
            Ok(v) => transform_numbers(args@) == Ok::<Seq<Seq<char>>, ErrorView>(literals_view(v@)),
            Err(e) => transform_numbers(args@) == Err::<Seq<Seq<char>>, ErrorView>(e@),
        },
{
    let mut spaced: Vec<char> = Vec::new();
    let mut i: usize = 0;
    while i < args.len()
        invariant
            i <= args@.len(),
            spaced@ == commas_to_spaces(args@.take(i as int)),
        decreases args.len() - i,
    {
        let c: char = if args[i] == ',' {
            ' '
        } else {
            args[i]
        };
        spaced.push(c);
        assert(commas_to_spaces(args@.take(i + 1)) =~= commas_to_spaces(args@.take(i as int)).push(c));
        i = i + 1;
    }
    assert(args@.take(i as int) =~= args@);
    let tokens: Vec<Vec<char>> = split_whitespace_chars(&spaced);
    let ghost tv = tokens.deep_view();
    let mut values: Vec<FloatLiteral> = Vec::new();
    let mut j: usize = 0;
    assert(tv.skip(0) =~= tv);
    assert(literals_view(values@) =~= Seq::<Seq<char>>::empty());
    proof {
        match float_tokens(tv) {
            Ok(v) => {
                assert(literals_view(values@) + v =~= v);
            },
            Err(_) => {},
        }
    }
    while j < tokens.len()
        invariant
            tv == tokens.deep_view(),
            tv == split_ws(commas_to_spaces(args@)),
            j <= tv.len(),
            transform_numbers(args@) == match float_tokens(tv.skip(j as int)) {
                Ok(v) => Ok::<Seq<Seq<char>>, ErrorView>(literals_view(values@) + v),
                Err(e) => Err(e),
            },
        decreases tokens.len() - j,
    {
        assert(tokens[j as int]@ == tv[j as int]);
        assert(tv.skip(j as int)[0] == tv[j as int]);
        assert(tv.skip(j as int).drop_first() =~= tv.skip(j + 1));
        match FloatLiteral::parse(&tokens[j]) {
            Some(l) => {
                let ghost before = values@;
                values.push(l);
                assert(literals_view(values@) =~= literals_view(before).push(tv[j as int]));
                proof {
                    match float_tokens(tv.skip(j + 1)) {
                        Ok(v) => {
                            assert(literals_view(before) + (seq![tv[j as int]] + v)
                                =~= literals_view(values@) + v);
                        },
                        Err(_) => {},
                    }
                }
            },
            None => {
                return Err(
                    InputError::NotANumber {
                        name: "transform value".to_owned(),
                        value: string_from(&tokens[j]),
                    },
                );
            },
        }
        j = j + 1;
    }
    assert(tv.skip(j as int) =~= Seq::<Seq<char>>::empty());
    assert(literals_view(values@) + Seq::<Seq<char>>::empty() =~= literals_view(values@));
    Ok(values)
}

/// Whether `args` holds `min..=max` numbers, as the transform function `name` takes.
fn expect_arg_count(name: &[char], args: &Vec<FloatLiteral>, min: usize, max: usize) -> (r: Result<(), InputError>)
    ensures
        result_view(r) == arg_count(name@, args@.len(), min, max),
{
    if args.len() >= min && args.len() <= max {
        return Ok(());
    }
    Err(
        InputError::ArgumentCount {
            name: string_from(name),
            min,
            max,
            got: args.len(),
        },
    )
}

/// The transform function named `name`, where `args` are as many as it takes.
fn parse_transform_kind(name: &[char], args: &Vec<FloatLiteral>) -> (r: Result<TransformKind, InputError>)
    ensures
        result_view(r) == transform_kind(name@, args@.len()),
{
    if chars_eq(name, "matrix") {
        expect_arg_count(name, args, 6, 6)?;
        Ok(TransformKind::Matrix)
    } else if chars_eq(name, "translate") {
        expect_arg_count(name, args, 1, 2)?;
        Ok(TransformKind::Translate)
    } else if chars_eq(name, "scale") {
        expect_arg_count(name, args, 1, 2)?;
        Ok(TransformKind::Scale)
    } else if chars_eq(name, "rotate") {
        expect_arg_count(name, args, 1, 3)?;
        Ok(TransformKind::Rotate)
    } else if chars_eq(name, "skewX") {
        expect_arg_count(name, args, 1, 1)?;
        Ok(TransformKind::SkewX)
    } else if chars_eq(name, "skewY") {
        expect_arg_count(name, args, 1, 1)?;
        Ok(TransformKind::SkewY)
    } else {
        Err(InputError::UnsupportedTransform(string_from(name)))
    }
}


/// The transform functions that `data` writes, in the order in which the program that
/// draws applies them to the canvas, up to the first that is refused; and that refusal.
/// The functions before a refused one are applied all the same.
pub fn parse_svg_transform(data: &[char]) -> (r: ParsedTransforms)
    ensures
        r@ == svg_transform(data@),
{
    let t: Vec<char> = trim_chars(data);
    let mut ops: Vec<TransformOp> = Vec::new();
    let mut pos: usize = 0;
    assert(t@.skip(0) =~= t@);
    assert(ops_view(ops@) + transform_ops(t@).ops =~= transform_ops(t@).ops);
    while pos < t.len()
        invariant
            pos <= t@.len(),
            t@ == trim(data@),
            svg_transform(data@) == after_ops(ops_view(ops@), transform_ops(t@.skip(pos as int))),
        decreases t.len() - pos,
    {
        let ghost remain = t@.skip(pos as int);
        assert(ops_view(ops@) + Seq::<TransformOpView>::empty() =~= ops_view(ops@));
        let start: usize = skip_ws(&t, pos);
        assert(remain.skip(prefix_while(remain, ws_pred()) as int) =~= t@.skip(start as int));
        let ghost r = t@.skip(start as int);
        let open: usize = find_char(&t, start, '(');
        let rest: Vec<char> = sub_chars(&t, start, t.len());
        assert(rest@ =~= r);
        if open == t.len() {
            return ParsedTransforms { ops, error: Some(InputError::InvalidTransform(string_from(&rest))) };
        }
        let name: Vec<char> = trim_chars(&sub_chars(&t, start, open));
        assert(r.take(open - start) =~= t@.subrange(start as int, open as int));
        assert(r.skip(open - start + 1) =~= t@.skip(open + 1));
        let close: usize = find_char(&t, open + 1, ')');
        if close == t.len() {
            return ParsedTransforms { ops, error: Some(InputError::MissingParen(string_from(&rest))) };
        }
        let inner: Vec<char> = sub_chars(&t, open + 1, close);
        assert(t@.skip(open + 1).take(close - open - 1) =~= inner@);
        assert(t@.skip(open + 1).skip(close - open) =~= t@.skip(close + 1));
        let args: Vec<FloatLiteral> = match parse_transform_numbers(&inner) {
            Ok(args) => args,
            Err(e) => return ParsedTransforms { ops, error: Some(e) },
        };
        let kind: TransformKind = match parse_transform_kind(&name, &args) {
            Ok(kind) => kind,
            Err(e) => return ParsedTransforms { ops, error: Some(e) },
        };
        let ghost before = ops@;
        let op = TransformOp { kind, args };
        let ghost opv = op@;
        ops.push(op);
        assert(ops_view(ops@) =~= ops_view(before).push(opv));
        assert(ops_view(before) + (seq![opv] + transform_ops(t@.skip(close + 1)).ops)
            =~= ops_view(ops@) + transform_ops(t@.skip(close + 1)).ops);
        pos = close + 1;
    }
    assert(t@.skip(pos as int) =~= Seq::<char>::empty());
    assert(ops_view(ops@) + Seq::<TransformOpView>::empty() =~= ops_view(ops@));
    ParsedTransforms { ops, error: None }
}

} // verus!

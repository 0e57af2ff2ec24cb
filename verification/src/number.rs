//! The number syntax of the command language: integers in base 10 and 16 as `str::parse`
//! and `from_str_radix` accept them, and the decimal literals that `f32::from_str`
//! accepts.
use vstd::prelude::*;
use crate::chars::{chars_eq, find_char, index_of, string_of, sub_chars};

verus! {

/// The value of `c` as a digit in base `radix` (`char::to_digit`), or -1 where it is none.
pub open spec fn char_digit(c: char, radix: int) -> int {
    let u = c as int;
    let d = if 48 <= u <= 57 {
        u - 48
    } else if 97 <= u <= 122 {
        u - 97 + 10
    } else if 65 <= u <= 90 {
        u - 65 + 10
    } else {
        -1
    };
    if 0 <= d < radix {
        d
    } else {
        -1
    }
}

/// Every character of `s` is a digit in base `radix`.
pub open spec fn all_radix_digits(s: Seq<char>, radix: int) -> bool {
    forall|i: int| 0 <= i < s.len() ==> char_digit(#[trigger] s[i], radix) >= 0
}

/// The number that the digits `s` write in base `radix`, most significant first.
pub open spec fn radix_value(s: Seq<char>, radix: int) -> int
    decreases s.len(),
{
    if s.len() == 0 {
        0
    } else {
        radix_value(s.drop_last(), radix) * radix + char_digit(s.last(), radix)
    }
}

/// `s` without one leading `+` or `-`.
pub open spec fn strip_sign(s: Seq<char>) -> Seq<char> {
    if s.len() > 0 && (s[0] == '+' || s[0] == '-') {
        s.drop_first()
    } else {
        s
    }
}

/// `s` without one leading `+`.
pub open spec fn strip_plus(s: Seq<char>) -> Seq<char> {
    if s.len() > 0 && s[0] == '+' {
        s.drop_first()
    } else {
        s
    }
}

/// What the unsigned parsers of std (`u32::from_str_radix`, `usize::from_str`) give for
/// `s`: an optional `+`, then at least one digit in base `radix`, of a value at most
/// `max`.
pub open spec fn unsigned_value(s: Seq<char>, radix: int, max: int) -> Option<int> {
    let body = strip_plus(s);
    if body.len() > 0 && all_radix_digits(body, radix) && radix_value(body, radix) <= max {
        Some(radix_value(body, radix))
    } else {
        None
    }
}

/// What `i32::from_str` gives for `s`: an optional sign, then at least one decimal digit,
/// of a value that fits in an `i32`.
pub open spec fn i32_value(s: Seq<char>) -> Option<i32> {
    let body = strip_sign(s);
    let v = if s.len() > 0 && s[0] == '-' {
        -radix_value(body, 10)
    } else {
        radix_value(body, 10)
    };
    if body.len() > 0 && all_radix_digits(body, 10) && i32::MIN <= v <= i32::MAX {
        Some(v as i32)
    } else {
        None
    }
}

/// ASCII lowercase of `c`.
pub open spec fn ascii_lower(c: char) -> char {
    if 65 <= c as u32 <= 90 {
        ((c as u32) + 32) as char
    } else {
        c
    }
}

/// ASCII lowercase of `s`.
pub open spec fn lowercase(s: Seq<char>) -> Seq<char> {
    s.map_values(|c: char| ascii_lower(c))
}

/// The lowercase decimal number syntax of `f32::from_str`:
/// `( Digit+ | Digit+ '.' Digit* | Digit* '.' Digit+ ) ( 'e' Sign? Digit+ )?`.
pub open spec fn is_decimal_number(l: Seq<char>) -> bool {
    let e = index_of(l, 'e');
    let m = l.take(e as int);
    let d = index_of(m, '.');
    let int_part = m.take(d as int);
    let frac = if d < m.len() {
        m.skip(d + 1int)
    } else {
        Seq::empty()
    };
    &&& all_radix_digits(int_part, 10)
    &&& all_radix_digits(frac, 10)
    &&& int_part.len() + frac.len() >= 1
    &&& (e >= l.len() || {
        let x = strip_sign(l.skip(e + 1int));
        x.len() >= 1 && all_radix_digits(x, 10)
    })
}

/// The strings that `f32::from_str` accepts, as its documentation gives their grammar
/// (case does not matter): `Sign? ( 'inf' | 'infinity' | 'nan' | Number )`.
pub open spec fn is_float_literal(s: Seq<char>) -> bool {
    let l = lowercase(strip_sign(s));
    ||| l == seq!['i', 'n', 'f']
    ||| l == seq!['i', 'n', 'f', 'i', 'n', 'i', 't', 'y']
    ||| l == seq!['n', 'a', 'n']
    ||| is_decimal_number(l)
}

/// `char::to_digit`.
pub fn to_digit(c: char, radix: u32) -> (d: Option<u32>)
    requires
        radix <= 36,
    ensures
        d matches Some(x) ==> x == char_digit(c, radix as int) && x < radix,
        d is None ==> char_digit(c, radix as int) == -1,
{
    let u: u32 = c as u32;
    let v: u32 = if 48 <= u && u <= 57 {
        u - 48
    } else if 97 <= u && u <= 122 {
        u - 97 + 10
    } else if 65 <= u && u <= 90 {
        u - 65 + 10
    } else {
        return None;
    };
    if v < radix {
        Some(v)
    } else {
        None
    }
}

/// Whether `v[from..to]` are all digits in base `radix`.
pub fn all_digits_in(v: &[char], from: usize, to: usize, radix: u32) -> (b: bool)
    requires
        from <= to <= v@.len(),
        radix <= 36,
    ensures
        b == all_radix_digits(v@.subrange(from as int, to as int), radix as int),
{
    let mut i: usize = from;
    while i < to
        invariant
            from <= i <= to <= v@.len(),
            radix <= 36,
            forall|j: int| from <= j < i ==> char_digit(#[trigger] v@[j], radix as int) >= 0,
        decreases to - i,
    {
        if to_digit(v[i], radix).is_none() {
            assert(v@.subrange(from as int, to as int)[i - from] == v@[i as int]);
            return false;
        }
        i = i + 1;
    }
    assert forall|j: int| 0 <= j < to - from implies char_digit(
        #[trigger] v@.subrange(from as int, to as int)[j],
        radix as int,
    ) >= 0 by {
        assert(v@.subrange(from as int, to as int)[j] == v@[from + j]);
    }
    true
}

/// The value of the digits `v[from..]` in base `radix` where all of them are digits,
/// there is at least one and the value is at most `max`.
pub fn radix_value_at_most(v: &[char], from: usize, radix: u32, max: u64) -> (r: Option<u64>)
    requires
        from <= v@.len(),
        radix == 10 || radix == 16,
    ensures
        ({
            let s = v@.skip(from as int);
            if s.len() > 0 && all_radix_digits(s, radix as int) && radix_value(s, radix as int)
                <= max {
                r matches Some(x) && x == radix_value(s, radix as int)
            } else {
                r is None
            }
        }),
{
    let ghost s = v@.skip(from as int);
    if from == v.len() {
        return None;
    }
    let mut acc: u128 = 0;
    let mut i: usize = from;
    assert(v@.subrange(from as int, from as int) =~= Seq::<char>::empty());
    while i < v.len()
        invariant
            from <= i <= v@.len(),
            radix == 10 || radix == 16,
            all_radix_digits(v@.subrange(from as int, i as int), radix as int),
            radix_value(v@.subrange(from as int, i as int), radix as int) <= max ==> acc
                == radix_value(v@.subrange(from as int, i as int), radix as int),
            radix_value(v@.subrange(from as int, i as int), radix as int) > max ==> acc > max,
            acc <= max * 16 + 15,
            radix_value(v@.subrange(from as int, i as int), radix as int) >= 0,
        decreases v.len() - i,
    {
        let ghost pre = v@.subrange(from as int, i as int);
        let ghost next = v@.subrange(from as int, i + 1);
        assert(next.drop_last() =~= pre);
        assert(next.last() == v@[i as int]);
        let d: u32 = match to_digit(v[i], radix) {
            Some(d) => d,
            None => {
                assert(v@.skip(from as int)[i - from] == v@[i as int]);
                return None;
            },
        };
        if acc <= max as u128 {
            acc = if radix == 10 {
                acc * 10 + d as u128
            } else {
                acc * 16 + d as u128
            };
        }
        assert forall|j: int| 0 <= j < next.len() implies char_digit(
            #[trigger] next[j],
            radix as int,
        ) >= 0 by {
            if j < pre.len() {
                assert(next[j] == pre[j]);
            }
        }
        i = i + 1;
    }
    assert(v@.subrange(from as int, v@.len() as int) =~= s);
    if acc <= max as u128 {
        Some(acc as u64)
    } else {
        None
    }
}

/// `u32::from_str_radix(s, 16)`.
pub fn parse_hex_u32(v: &[char]) -> (r: Option<u32>)
    ensures
        r matches Some(x) ==> unsigned_value(v@, 16, u32::MAX as int) == Some(x as int),
        r is None ==> unsigned_value(v@, 16, u32::MAX as int) is None,
{
    let start: usize = if v.len() > 0 && v[0] == '+' {
        1
    } else {
        0
    };
    assert(v@.skip(start as int) =~= strip_plus(v@));
    match radix_value_at_most(v, start, 16, 0xffff_ffff) {
        Some(x) => Some(x as u32),
        None => None,
    }
}

/// `usize::from_str`.
pub fn parse_usize(v: &[char]) -> (r: Option<usize>)
    ensures
        r matches Some(x) ==> unsigned_value(v@, 10, usize::MAX as int) == Some(x as int),
        r is None ==> unsigned_value(v@, 10, usize::MAX as int) is None,
{
    let start: usize = if v.len() > 0 && v[0] == '+' {
        1
    } else {
        0
    };
    assert(v@.skip(start as int) =~= strip_plus(v@));
    match radix_value_at_most(v, start, 10, usize::MAX as u64) {
        Some(x) => Some(x as usize),
        None => None,
    }
}

/// `i32::from_str`.
pub fn parse_i32(v: &[char]) -> (r: Option<i32>)
    ensures
        r == i32_value(v@),
{
    let negative: bool = v.len() > 0 && v[0] == '-';
    let start: usize = if v.len() > 0 && (v[0] == '+' || v[0] == '-') {
        1
    } else {
        0
    };
    assert(v@.skip(start as int) =~= strip_sign(v@));
    match radix_value_at_most(v, start, 10, 0x8000_0000) {
        Some(x) => {
            if negative {
                Some((0 - x as i64) as i32)
            } else if x <= 0x7fff_ffff {
                Some(x as i32)
            } else {
                None
            }
        },
        None => None,
    }
}

/// ASCII lowercase of `v`.
pub fn lowercase_chars(v: &[char]) -> (r: Vec<char>)
    ensures
        r@ == lowercase(v@),
{
    let mut r: Vec<char> = Vec::new();
    let mut i: usize = 0;
    while i < v.len()
        invariant
            i <= v@.len(),
            r@ == lowercase(v@.take(i as int)),
        decreases v.len() - i,
    {
        let c: char = v[i];
        let u: u32 = c as u32;
        let lc: char = if 65 <= u && u <= 90 {
            ((u + 32) as u8) as char
        } else {
            c
        };
        assert(lc == ascii_lower(c)) by {
            if 65 <= u <= 90 {
                assert(((u + 32) as u8) as char == ((u + 32) as u32) as char);
            }
        }
        r.push(lc);
        assert(lowercase(v@.take(i + 1)) =~= lowercase(v@.take(i as int)).push(lc));
        i = i + 1;
    }
    assert(v@.take(v@.len() as int) =~= v@);
    r
}

/// Whether the lowercase `l` is a decimal number as `f32::from_str` writes it.
pub fn is_decimal_number_chars(l: &[char]) -> (b: bool)
    ensures
        b == is_decimal_number(l@),
{
    assert(l@.skip(0) =~= l@);
    let e: usize = find_char(l, 0, 'e');
    let m: Vec<char> = sub_chars(l, 0, e);
    assert(m@ =~= l@.take(e as int));
    assert(m@.skip(0) =~= m@);
    let d: usize = find_char(&m, 0, '.');
    let int_ok: bool = all_digits_in(&m, 0, d, 10);
    assert(m@.subrange(0, d as int) =~= m@.take(d as int));
    let frac_ok: bool = if d < m.len() {
        assert(m@.subrange(d + 1, m@.len() as int) =~= m@.skip(d + 1));
        all_digits_in(&m, d + 1, m.len(), 10)
    } else {
        true
    };
    let frac_len: usize = if d < m.len() {
        m.len() - d - 1
    } else {
        0
    };
    if !(int_ok && frac_ok && d + frac_len >= 1) {
        return false;
    }
    if e >= l.len() {
        return true;
    }
    let mut x: usize = e + 1;
    if x < l.len() && (l[x] == '+' || l[x] == '-') {
        x = x + 1;
    }
    assert(l@.subrange(x as int, l@.len() as int) =~= strip_sign(l@.skip(e + 1)));
    x < l.len() && all_digits_in(l, x, l.len(), 10)
}

/// Whether `v` is a literal that `f32::from_str` accepts.
pub fn is_float_literal_chars(v: &[char]) -> (b: bool)
    ensures
        b == is_float_literal(v@),
{
    let start: usize = if v.len() > 0 && (v[0] == '+' || v[0] == '-') {
        1
    } else {
        0
    };
    let body: Vec<char> = sub_chars(v, start, v.len());
    assert(body@ =~= strip_sign(v@));
    let l: Vec<char> = lowercase_chars(&body);
    proof {
        reveal_strlit("inf");
        reveal_strlit("infinity");
        reveal_strlit("nan");
        assert("inf"@ =~= seq!['i', 'n', 'f']);
        assert("infinity"@ =~= seq!['i', 'n', 'f', 'i', 'n', 'i', 't', 'y']);
        assert("nan"@ =~= seq!['n', 'a', 'n']);
    }
    chars_eq(&l, "inf") || chars_eq(&l, "infinity") || chars_eq(&l, "nan")
        || is_decimal_number_chars(&l)
}

/// A number written as `f32::from_str` accepts it (only `parse` makes one); the program
/// that draws turns it into an `f32`.
#[derive(Debug, PartialEq, Eq)]
pub struct FloatLiteral {
    text: String,
}

impl View for FloatLiteral {
    type V = Seq<char>;

    closed spec fn view(&self) -> Seq<char> {
        self.text@
    }
}

impl FloatLiteral {
    /// The literal that `v` writes, where `f32::from_str` accepts it.
    pub fn parse(v: &[char]) -> (r: Option<FloatLiteral>)
        ensures
            r is Some <==> is_float_literal(v@),
            r matches Some(l) ==> l@ == v@,
    {
        if is_float_literal_chars(v) {
            let text: String = string_of(sub_chars(v, 0, v.len()));
            assert(text@ =~= v@);
            Some(FloatLiteral { text })
        } else {
            None
        }
    }

    /// The text of the literal.
    pub fn as_str(&self) -> (s: &str)
        ensures
            s@ == self@,
    {
        self.text.as_str()
    }
}

} // verus!

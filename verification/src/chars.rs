//! Text as sequences of characters: trimming, splitting on whitespace, lines and
//! separators, stated over `Seq<char>` and computed on `Vec<char>`.
use vstd::prelude::*;

verus! {

/// The Unicode `White_Space` property, which `char::is_whitespace` tests and by which
/// `str::trim` and `str::split_whitespace` cut text.
pub open spec fn is_ws(c: char) -> bool {
    let u = c as u32;
    ||| 0x9 <= u <= 0xd
    ||| u == 0x20
    ||| u == 0x85
    ||| u == 0xa0
    ||| u == 0x1680
    ||| 0x2000 <= u <= 0x200a
    ||| u == 0x2028
    ||| u == 0x2029
    ||| u == 0x202f
    ||| u == 0x205f
    ||| u == 0x3000
}

/// Holds of whitespace.
pub open spec fn ws_pred() -> spec_fn(char) -> bool {
    |c: char| is_ws(c)
}

/// Holds of everything but whitespace.
pub open spec fn non_ws_pred() -> spec_fn(char) -> bool {
    |c: char| !is_ws(c)
}

/// Holds of every character but `c`.
pub open spec fn not_char(c: char) -> spec_fn(char) -> bool {
    |x: char| x != c
}

/// Holds of `c` alone.
pub open spec fn is_char(c: char) -> spec_fn(char) -> bool {
    |x: char| x == c
}

/// The length of the longest prefix of `s` whose characters all satisfy `p`.
pub open spec fn prefix_while(s: Seq<char>, p: spec_fn(char) -> bool) -> nat
    decreases s.len(),
{
    if s.len() > 0 && p(s[0]) {
        1 + prefix_while(s.drop_first(), p)
    } else {
        0
    }
}

/// The length of the longest suffix of `s` whose characters all satisfy `p`.
pub open spec fn suffix_while(s: Seq<char>, p: spec_fn(char) -> bool) -> nat
    decreases s.len(),
{
    if s.len() > 0 && p(s.last()) {
        1 + suffix_while(s.drop_last(), p)
    } else {
        0
    }
}

/// Where the first `c` of `s` stands, or `s.len()` where there is none.
pub open spec fn index_of(s: Seq<char>, c: char) -> nat {
    prefix_while(s, not_char(c))
}

/// `s` without its leading whitespace (`str::trim_start`).
pub open spec fn trim_start(s: Seq<char>) -> Seq<char> {
    s.skip(prefix_while(s, ws_pred()) as int)
}

/// `s` without its trailing whitespace (`str::trim_end`).
pub open spec fn trim_end(s: Seq<char>) -> Seq<char> {
    s.take(s.len() - suffix_while(s, ws_pred()))
}

/// `s` without leading and trailing whitespace (`str::trim`).
pub open spec fn trim(s: Seq<char>) -> Seq<char> {
    trim_end(trim_start(s))
}

/// `s` without its leading spaces `' '` (`str::trim_start_matches(' ')`).
pub open spec fn trim_start_spaces(s: Seq<char>) -> Seq<char> {
    s.skip(prefix_while(s, is_char(' ')) as int)
}

/// The maximal runs of non-whitespace characters of `s`, in order
/// (`str::split_whitespace`).
pub open spec fn split_ws(s: Seq<char>) -> Seq<Seq<char>>
    decreases s.len(),
{
    let a = prefix_while(s, ws_pred());
    if a >= s.len() {
        seq![]
    } else {
        let t = s.skip(a as int);
        let b = prefix_while(t, non_ws_pred());
        proof {
            lemma_prefix_while_facts(s, ws_pred());
            lemma_prefix_while_len(t, non_ws_pred());
            assert(t[0] == s[a as int]);
        }
        seq![t.take(b as int)] + split_ws(t.skip(b as int))
    }
}

/// `l` without one trailing carriage return.
pub open spec fn strip_cr(l: Seq<char>) -> Seq<char> {
    if l.len() > 0 && l.last() == '\r' {
        l.drop_last()
    } else {
        l
    }
}

/// The lines of `s` (`str::lines`): the pieces between line feeds, each without the
/// carriage return that stands before its line feed; a final line feed starts no line.
pub open spec fn lines(s: Seq<char>) -> Seq<Seq<char>>
    decreases s.len(),
{
    if s.len() == 0 {
        seq![]
    } else {
        let k = index_of(s, '\n');
        proof {
            lemma_prefix_while_len(s, not_char('\n'));
        }
        if k >= s.len() {
            seq![s]
        } else {
            seq![strip_cr(s.take(k as int))] + lines(s.skip(k + 1int))
        }
    }
}

/// `s` cut at its first `n - 1` occurrences of `c` (`str::splitn(n, c)`, `n >= 1`): the
/// last piece keeps the rest of `s`.
pub open spec fn splitn(s: Seq<char>, n: nat, c: char) -> Seq<Seq<char>>
    decreases n,
{
    if n <= 1 {
        seq![s]
    } else {
        let k = index_of(s, c);
        if k >= s.len() {
            seq![s]
        } else {
            seq![s.take(k as int)] + splitn(s.skip(k + 1int), (n - 1) as nat, c)
        }
    }
}

/// The pieces `p` joined, with `c` between each two.
pub open spec fn join_pieces(p: Seq<Seq<char>>, c: char) -> Seq<char>
    decreases p.len(),
{
    if p.len() == 0 {
        Seq::empty()
    } else if p.len() == 1 {
        p[0]
    } else {
        p[0] + seq![c] + join_pieces(p.drop_first(), c)
    }
}

/// `splitn(s, n, c)` cuts `s` into at most `n` pieces (at least one) that give `s` back
/// when joined with `c`; no piece but the last holds `c`, and the last holds none either
/// where there are fewer than `n` pieces.
pub proof fn lemma_splitn_pieces(s: Seq<char>, n: nat, c: char)
    requires
        n >= 1,
    ensures
        1 <= splitn(s, n, c).len() <= n,
        join_pieces(splitn(s, n, c), c) == s,
        forall|i: int| 0 <= i < splitn(s, n, c).len() - 1 ==> !(#[trigger] splitn(s, n, c)[i]).contains(c),
        splitn(s, n, c).len() < n ==> !splitn(s, n, c).last().contains(c),
    decreases n,
{
    let r = splitn(s, n, c);
    let k = index_of(s, c);
    lemma_prefix_while_facts(s, not_char(c));
    if n <= 1 || k >= s.len() {
        if k >= s.len() {
            assert forall|j: int| 0 <= j < s.len() implies s[j] != c by {
                assert(not_char(c)(s[j]));
            }
        }
    } else {
        let rest = s.skip(k + 1int);
        lemma_splitn_pieces(rest, (n - 1) as nat, c);
        let p = splitn(rest, (n - 1) as nat, c);
        assert(r == seq![s.take(k as int)] + p);
        assert(r.drop_first() =~= p);
        assert(s.take(k as int) + seq![c] + rest =~= s);
        assert(!s.take(k as int).contains(c)) by {
            assert forall|j: int| 0 <= j < k implies s.take(k as int)[j] != c by {
                assert(not_char(c)(s[j]));
            }
        }
        assert forall|i: int| 0 <= i < r.len() - 1 implies !(#[trigger] r[i]).contains(c) by {
            if i > 0 {
                assert(r[i] == p[i - 1]);
            }
        }
    }
}

/// `prefix_while` measures at most all of `s`.
pub proof fn lemma_prefix_while_len(s: Seq<char>, p: spec_fn(char) -> bool)
    ensures
        prefix_while(s, p) <= s.len(),
    decreases s.len(),
{
    if s.len() > 0 && p(s[0]) {
        lemma_prefix_while_len(s.drop_first(), p);
    }
}

/// `suffix_while` measures at most all of `s`.
pub proof fn lemma_suffix_while_len(s: Seq<char>, p: spec_fn(char) -> bool)
    ensures
        suffix_while(s, p) <= s.len(),
    decreases s.len(),
{
    if s.len() > 0 && p(s.last()) {
        lemma_suffix_while_len(s.drop_last(), p);
    }
}

/// A prefix of length `k` all of whose characters satisfy `p`, followed by the end or
/// by a character that does not, is the prefix that `prefix_while` measures.
pub proof fn lemma_prefix_while_is(s: Seq<char>, p: spec_fn(char) -> bool, k: int)
    requires
        0 <= k <= s.len(),
        forall|j: int| 0 <= j < k ==> #[trigger] p(s[j]),
        k == s.len() || !p(s[k]),
    ensures
        prefix_while(s, p) == k,
    decreases k,
{
    if k > 0 {
        assert(p(s[0]));
        let t = s.drop_first();
        assert forall|j: int| 0 <= j < k - 1 implies #[trigger] p(t[j]) by {
            assert(p(s[j + 1]));
        }
        if k < s.len() {
            assert(t[k - 1] == s[k]);
        }
        lemma_prefix_while_is(t, p, k - 1);
    }
}

/// What `prefix_while` measures: its characters satisfy `p`, and the next one does not.
pub proof fn lemma_prefix_while_facts(s: Seq<char>, p: spec_fn(char) -> bool)
    ensures
        prefix_while(s, p) <= s.len(),
        forall|j: int| 0 <= j < prefix_while(s, p) ==> #[trigger] p(s[j]),
        prefix_while(s, p) < s.len() ==> !p(s[prefix_while(s, p) as int]),
    decreases s.len(),
{
    lemma_prefix_while_len(s, p);
    if s.len() > 0 && p(s[0]) {
        let t = s.drop_first();
        lemma_prefix_while_facts(t, p);
        assert forall|j: int| 0 <= j < prefix_while(s, p) implies #[trigger] p(s[j]) by {
            if j > 0 {
                assert(s[j] == t[j - 1]);
            }
        }
        if prefix_while(s, p) < s.len() {
            assert(s[prefix_while(s, p) as int] == t[prefix_while(t, p) as int]);
        }
    }
}

/// A suffix of length `k` all of whose characters satisfy `p`, preceded by the start or
/// by a character that does not, is the suffix that `suffix_while` measures.
pub proof fn lemma_suffix_while_is(s: Seq<char>, p: spec_fn(char) -> bool, k: int)
    requires
        0 <= k <= s.len(),
        forall|j: int| s.len() - k <= j < s.len() ==> #[trigger] p(s[j]),
        k == s.len() || !p(s[s.len() - k - 1]),
    ensures
        suffix_while(s, p) == k,
    decreases k,
{
    if k > 0 {
        assert(p(s[s.len() - 1]));
        let t = s.drop_last();
        assert forall|j: int| t.len() - (k - 1) <= j < t.len() implies #[trigger] p(t[j]) by {
            assert(p(s[j]));
        }
        if k < s.len() {
            assert(t[t.len() - (k - 1) - 1] == s[s.len() - k - 1]);
        }
        lemma_suffix_while_is(t, p, k - 1);
    }
}

/// `char::is_whitespace`.
pub fn is_whitespace(c: char) -> (b: bool)
    ensures
        b == is_ws(c),
{
    let u: u32 = c as u32;
    (0x9 <= u && u <= 0xd) || u == 0x20 || u == 0x85 || u == 0xa0 || u == 0x1680 || (0x2000
        <= u && u <= 0x200a) || u == 0x2028 || u == 0x2029 || u == 0x202f || u == 0x205f || u
        == 0x3000
}

/// The characters of `s`, in order.
pub fn chars_of(s: &str) -> (v: Vec<char>)
    ensures
        v@ == s@,
{
    let mut v: Vec<char> = Vec::new();
    for c in iter: s.chars()
        invariant
            v@ == iter.seq().take(iter.index() as int),
    {
        v.push(c);
    }
    v
}

/// The string made of the characters of `v`, by std's `String::from_iter` (the
/// `FromIterator<char>` impl of `String`), which vstd does not specify. Trusted, not
/// proved: the contract claims that the string holds exactly the characters of `v`, in
/// their order, as that impl's documentation says of collecting characters.
#[verifier::external_body]
pub(crate) fn string_of(v: Vec<char>) -> (s: String)
    ensures
        s@ == v@,
{
    String::from_iter(v)
}

/// The string made of the characters of `v`.
pub fn string_from(v: &[char]) -> (s: String)
    ensures
        s@ == v@,
{
    let w: Vec<char> = sub_chars(v, 0, v.len());
    assert(w@ =~= v@);
    string_of(w)
}

/// The characters `v[from..to]`.
pub fn sub_chars(v: &[char], from: usize, to: usize) -> (r: Vec<char>)
    requires
        from <= to <= v@.len(),
    ensures
        r@ == v@.subrange(from as int, to as int),
{
    let mut r: Vec<char> = Vec::new();
    let mut i: usize = from;
    while i < to
        invariant
            from <= i <= to <= v@.len(),
            r@ == v@.subrange(from as int, i as int),
        decreases to - i,
    {
        r.push(v[i]);
        i = i + 1;
    }
    r
}

/// Whether `v` holds exactly the characters of `lit`.
pub fn chars_eq(v: &[char], lit: &str) -> (b: bool)
    ensures
        b == (v@ == lit@),
{
    let w: Vec<char> = chars_of(lit);
    if v.len() != w.len() {
        return false;
    }
    let mut i: usize = 0;
    while i < v.len()
        invariant
            v@.len() == w@.len(),
            w@ == lit@,
            i <= v@.len(),
            forall|j: int| 0 <= j < i ==> v@[j] == w@[j],
        decreases v.len() - i,
    {
        if v[i] != w[i] {
            return false;
        }
        i = i + 1;
    }
    assert(v@ =~= w@);
    true
}

/// The first index at or after `start` whose character is not whitespace, or the end.
pub fn skip_ws(v: &[char], start: usize) -> (end: usize)
    requires
        start <= v@.len(),
    ensures
        start <= end <= v@.len(),
        end == start + prefix_while(v@.skip(start as int), ws_pred()),
{
    let mut i: usize = start;
    while i < v.len() && is_whitespace(v[i])
        invariant
            start <= i <= v@.len(),
            forall|j: int| start <= j < i ==> is_ws(v@[j]),
        decreases v.len() - i,
    {
        i = i + 1;
    }
    proof {
        let s = v@.skip(start as int);
        assert forall|j: int| 0 <= j < i - start implies #[trigger] ws_pred()(s[j]) by {
            assert(s[j] == v@[start + j]);
        }
        lemma_prefix_while_is(s, ws_pred(), i - start);
    }
    i
}

/// The first index at or after `start` whose character is whitespace, or the end.
pub fn skip_non_ws(v: &[char], start: usize) -> (end: usize)
    requires
        start <= v@.len(),
    ensures
        start <= end <= v@.len(),
        end == start + prefix_while(v@.skip(start as int), non_ws_pred()),
{
    let mut i: usize = start;
    while i < v.len() && !is_whitespace(v[i])
        invariant
            start <= i <= v@.len(),
            forall|j: int| start <= j < i ==> !is_ws(v@[j]),
        decreases v.len() - i,
    {
        i = i + 1;
    }
    proof {
        let s = v@.skip(start as int);
        assert forall|j: int| 0 <= j < i - start implies #[trigger] non_ws_pred()(s[j]) by {
            assert(s[j] == v@[start + j]);
        }
        lemma_prefix_while_is(s, non_ws_pred(), i - start);
    }
    i
}

/// The first index at or after `start` that holds `c`, or the end.
pub fn find_char(v: &[char], start: usize, c: char) -> (end: usize)
    requires
        start <= v@.len(),
    ensures
        start <= end <= v@.len(),
        end == start + index_of(v@.skip(start as int), c),
{
    let mut i: usize = start;
    while i < v.len() && v[i] != c
        invariant
            start <= i <= v@.len(),
            forall|j: int| start <= j < i ==> v@[j] != c,
        decreases v.len() - i,
    {
        i = i + 1;
    }
    proof {
        let s = v@.skip(start as int);
        assert forall|j: int| 0 <= j < i - start implies #[trigger] not_char(c)(s[j]) by {
            assert(s[j] == v@[start + j]);
        }
        lemma_prefix_while_is(s, not_char(c), i - start);
    }
    i
}

/// `str::trim_start`.
pub fn trim_start_chars(v: &[char]) -> (r: Vec<char>)
    ensures
        r@ == trim_start(v@),
{
    let i: usize = skip_ws(v, 0);
    assert(v@.skip(0) =~= v@);
    sub_chars(v, i, v.len())
}

/// `str::trim_end`.
pub fn trim_end_chars(v: &[char]) -> (r: Vec<char>)
    ensures
        r@ == trim_end(v@),
{
    let mut k: usize = v.len();
    while k > 0 && is_whitespace(v[k - 1])
        invariant
            k <= v@.len(),
            forall|j: int| k <= j < v@.len() ==> #[trigger] ws_pred()(v@[j]),
        decreases k,
    {
        k = k - 1;
    }
    proof {
        lemma_suffix_while_is(v@, ws_pred(), v.len() - k);
    }
    sub_chars(v, 0, k)
}

/// `str::trim`.
pub fn trim_chars(v: &[char]) -> (r: Vec<char>)
    ensures
        r@ == trim(v@),
{
    let t: Vec<char> = trim_start_chars(v);
    trim_end_chars(&t)
}

/// `str::trim_start_matches(' ')`.
pub fn trim_start_spaces_chars(v: &[char]) -> (r: Vec<char>)
    ensures
        r@ == trim_start_spaces(v@),
{
    let mut i: usize = 0;
    while i < v.len() && v[i] == ' '
        invariant
            i <= v@.len(),
            forall|j: int| 0 <= j < i ==> #[trigger] is_char(' ')(v@[j]),
        decreases v.len() - i,
    {
        i = i + 1;
    }
    proof {
        lemma_prefix_while_is(v@, is_char(' '), i as int);
    }
    sub_chars(v, i, v.len())
}

/// Whitespace-separated runs are at most half the text, rounded up.
pub proof fn lemma_split_ws_len(s: Seq<char>)
    ensures
        split_ws(s).len() * 2 <= s.len() + 1,
    decreases s.len(),
{
    let a = prefix_while(s, ws_pred());
    lemma_prefix_while_facts(s, ws_pred());
    if a < s.len() {
        let t = s.skip(a as int);
        let b = prefix_while(t, non_ws_pred());
        lemma_prefix_while_facts(t, non_ws_pred());
        assert(t[0] == s[a as int]);
        assert(b >= 1);
        let r = t.skip(b as int);
        assert(split_ws(s) == seq![t.take(b as int)] + split_ws(r));
        assert(r.len() == s.len() - a - b);
        if r.len() > 0 {
            assert(r[0] == t[b as int]);
            let r1 = r.drop_first();
            lemma_prefix_while_facts(r, ws_pred());
            lemma_prefix_while_facts(r1, ws_pred());
            assert(prefix_while(r, ws_pred()) == 1 + prefix_while(r1, ws_pred()));
            assert(r.skip(prefix_while(r, ws_pred()) as int) =~= r1.skip(
                prefix_while(r1, ws_pred()) as int,
            ));
            assert(split_ws(r) == split_ws(r1));
            lemma_split_ws_len(r1);
        }
    }
}

/// Every piece of `split_whitespace` is non-empty and holds no whitespace.
pub proof fn lemma_split_ws_tokens(s: Seq<char>)
    ensures
        forall|i: int| 0 <= i < split_ws(s).len() ==> #[trigger] split_ws(s)[i].len() > 0,
        forall|i: int, j: int|
            0 <= i < split_ws(s).len() && 0 <= j < split_ws(s)[i].len() ==> !is_ws(
                #[trigger] split_ws(s)[i][j],
            ),
    decreases s.len(),
{
    let a = prefix_while(s, ws_pred());
    lemma_prefix_while_facts(s, ws_pred());
    if a < s.len() {
        let t = s.skip(a as int);
        let b = prefix_while(t, non_ws_pred());
        lemma_prefix_while_facts(t, non_ws_pred());
        assert(t[0] == s[a as int]);
        let r = t.skip(b as int);
        lemma_split_ws_tokens(r);
        let w = t.take(b as int);
        assert(split_ws(s) == seq![w] + split_ws(r));
        assert forall|i: int, j: int|
            0 <= i < split_ws(s).len() && 0 <= j < split_ws(s)[i].len() implies !is_ws(
            #[trigger] split_ws(s)[i][j],
        ) by {
            if i == 0 {
                assert(split_ws(s)[0] == w);
                assert(non_ws_pred()(t[j]));
            } else {
                assert(split_ws(s)[i] == split_ws(r)[i - 1]);
            }
        }
        assert forall|i: int| 0 <= i < split_ws(s).len() implies #[trigger] split_ws(s)[i].len()
            > 0 by {
            if i > 0 {
                assert(split_ws(s)[i] == split_ws(r)[i - 1]);
            }
        }
    }
}

/// The characters of `s` that are not whitespace, in order.
pub open spec fn non_ws_chars(s: Seq<char>) -> Seq<char>
    decreases s.len(),
{
    if s.len() == 0 {
        Seq::empty()
    } else if is_ws(s[0]) {
        non_ws_chars(s.drop_first())
    } else {
        seq![s[0]] + non_ws_chars(s.drop_first())
    }
}

/// The pieces `p` one after another.
pub open spec fn concat_pieces(p: Seq<Seq<char>>) -> Seq<char>
    decreases p.len(),
{
    if p.len() == 0 {
        Seq::empty()
    } else {
        p[0] + concat_pieces(p.drop_first())
    }
}

proof fn lemma_non_ws_chars_add(x: Seq<char>, y: Seq<char>)
    ensures
        non_ws_chars(x + y) == non_ws_chars(x) + non_ws_chars(y),
    decreases x.len(),
{
    if x.len() == 0 {
        assert(x + y =~= y);
        assert(non_ws_chars(x) + non_ws_chars(y) =~= non_ws_chars(y));
    } else {
        lemma_non_ws_chars_add(x.drop_first(), y);
        assert((x + y).drop_first() =~= x.drop_first() + y);
        assert((x + y)[0] == x[0]);
        if !is_ws(x[0]) {
            assert(seq![x[0]] + (non_ws_chars(x.drop_first()) + non_ws_chars(y))
                =~= (seq![x[0]] + non_ws_chars(x.drop_first())) + non_ws_chars(y));
        }
    }
}

proof fn lemma_non_ws_chars_uniform(x: Seq<char>)
    ensures
        (forall|j: int| 0 <= j < x.len() ==> is_ws(#[trigger] x[j])) ==> non_ws_chars(x) == Seq::<char>::empty(),
        (forall|j: int| 0 <= j < x.len() ==> !is_ws(#[trigger] x[j])) ==> non_ws_chars(x) == x,
    decreases x.len(),
{
    if x.len() > 0 {
        lemma_non_ws_chars_uniform(x.drop_first());
        if forall|j: int| 0 <= j < x.len() ==> is_ws(#[trigger] x[j]) {
            assert forall|j: int| 0 <= j < x.drop_first().len() implies is_ws(#[trigger] x.drop_first()[j]) by {
                assert(is_ws(x[j + 1]));
            }
        }
        if forall|j: int| 0 <= j < x.len() ==> !is_ws(#[trigger] x[j]) {
            assert forall|j: int| 0 <= j < x.drop_first().len() implies !is_ws(#[trigger] x.drop_first()[j]) by {
                assert(!is_ws(x[j + 1]));
            }
            assert(!is_ws(x[0]));
            assert(seq![x[0]] + x.drop_first() =~= x);
        }
    } else {
        assert(x =~= Seq::<char>::empty());
    }
}

/// The tokens of `str::split_whitespace` hold every character of the text that is not
/// whitespace, each once and in order: no character is lost, moved or added.
pub proof fn lemma_split_ws_keeps_characters(s: Seq<char>)
    ensures
        concat_pieces(split_ws(s)) == non_ws_chars(s),
    decreases s.len(),
{
    let a = prefix_while(s, ws_pred());
    lemma_prefix_while_facts(s, ws_pred());
    let head = s.take(a as int);
    assert forall|j: int| 0 <= j < head.len() implies is_ws(#[trigger] head[j]) by {
        assert(ws_pred()(s[j]));
    }
    lemma_non_ws_chars_uniform(head);
    let t = s.skip(a as int);
    assert(head + t =~= s);
    lemma_non_ws_chars_add(head, t);
    if a < s.len() {
        let b = prefix_while(t, non_ws_pred());
        lemma_prefix_while_facts(t, non_ws_pred());
        let w = t.take(b as int);
        let r = t.skip(b as int);
        assert forall|j: int| 0 <= j < w.len() implies !is_ws(#[trigger] w[j]) by {
            assert(non_ws_pred()(t[j]));
        }
        lemma_non_ws_chars_uniform(w);
        assert(w + r =~= t);
        lemma_non_ws_chars_add(w, r);
        lemma_split_ws_keeps_characters(r);
        assert(split_ws(s) == seq![w] + split_ws(r));
        assert((seq![w] + split_ws(r)).drop_first() =~= split_ws(r));
        assert(non_ws_chars(head) + non_ws_chars(t) =~= non_ws_chars(t));
    } else {
        assert(t =~= Seq::<char>::empty());
        assert(non_ws_chars(head) + non_ws_chars(t) =~= Seq::<char>::empty());
    }
}

/// No line of `str::lines` holds a line feed.
pub proof fn lemma_lines_have_no_line_feed(s: Seq<char>)
    ensures
        forall|i: int, j: int|
            0 <= i < lines(s).len() && 0 <= j < lines(s)[i].len() ==> #[trigger] lines(s)[i][j]
                != '\n',
    decreases s.len(),
{
    if s.len() > 0 {
        let k = index_of(s, '\n');
        lemma_prefix_while_facts(s, not_char('\n'));
        if k < s.len() {
            let r = s.skip(k + 1int);
            lemma_lines_have_no_line_feed(r);
            let first = strip_cr(s.take(k as int));
            assert(lines(s) == seq![first] + lines(r));
            assert forall|i: int, j: int|
                0 <= i < lines(s).len() && 0 <= j < lines(s)[i].len() implies #[trigger] lines(
                s,
            )[i][j] != '\n' by {
                if i == 0 {
                    assert(lines(s)[0] == first);
                    assert(first[j] == s[j]);
                    assert(not_char('\n')(s[j]));
                } else {
                    assert(lines(s)[i] == lines(r)[i - 1]);
                }
            }
        } else {
            assert forall|i: int, j: int|
                0 <= i < lines(s).len() && 0 <= j < lines(s)[i].len() implies #[trigger] lines(
                s,
            )[i][j] != '\n' by {
                assert(lines(s)[0] == s);
                assert(not_char('\n')(s[j]));
            }
        }
    }
}

/// A trimmed text is its own trim: `str::trim` leaves no whitespace at either end.
pub proof fn lemma_trim_idempotent(s: Seq<char>)
    ensures
        trim(trim(s)) == trim(s),
        trim(s).len() > 0 ==> !is_ws(trim(s)[0]) && !is_ws(trim(s).last()),
{
    let a = prefix_while(s, ws_pred());
    lemma_prefix_while_facts(s, ws_pred());
    let t = trim_start(s);
    let u = trim(s);
    let b = suffix_while(t, ws_pred());
    lemma_suffix_while_len(t, ws_pred());
    lemma_suffix_while_facts(t, ws_pred());
    assert(u == t.take(t.len() - b));
    if u.len() > 0 {
        assert(u[0] == t[0]);
        assert(t[0] == s[a as int]);
        assert(u.last() == t[t.len() - b - 1]);
    }
    // trim_start(u) == u
    if u.len() == 0 {
        lemma_prefix_while_is(u, ws_pred(), 0);
    } else {
        lemma_prefix_while_is(u, ws_pred(), 0);
    }
    assert(trim_start(u) =~= u);
    // trim_end(u) == u
    lemma_suffix_while_is(u, ws_pred(), 0);
    assert(trim_end(u) =~= u);
}

/// What `suffix_while` measures: its characters satisfy `p`, and the one before does not.
pub proof fn lemma_suffix_while_facts(s: Seq<char>, p: spec_fn(char) -> bool)
    ensures
        suffix_while(s, p) <= s.len(),
        forall|j: int| s.len() - suffix_while(s, p) <= j < s.len() ==> #[trigger] p(s[j]),
        suffix_while(s, p) < s.len() ==> !p(s[s.len() - suffix_while(s, p) - 1]),
    decreases s.len(),
{
    lemma_suffix_while_len(s, p);
    if s.len() > 0 && p(s.last()) {
        let t = s.drop_last();
        lemma_suffix_while_facts(t, p);
        assert forall|j: int| s.len() - suffix_while(s, p) <= j < s.len() implies #[trigger] p(
            s[j],
        ) by {
            if j < s.len() - 1 {
                assert(s[j] == t[j]);
            }
        }
        if suffix_while(s, p) < s.len() {
            assert(s[s.len() - suffix_while(s, p) - 1] == t[t.len() - suffix_while(t, p) - 1]);
        }
    }
}

/// `str::split_whitespace`.
pub fn split_whitespace_chars(v: &[char]) -> (r: Vec<Vec<char>>)
    ensures
        r.deep_view() == split_ws(v@),
        r@.len() * 2 <= v@.len() + 1,
{
    proof {
        lemma_split_ws_len(v@);
    }
    let mut r: Vec<Vec<char>> = Vec::new();
    let mut i: usize = 0;
    assert(v@.skip(0) =~= v@);
    assert(r.deep_view() =~= Seq::<Seq<char>>::empty());
    loop
        invariant
            i <= v@.len(),
            r.deep_view() + split_ws(v@.skip(i as int)) == split_ws(v@),
            split_ws(v@).len() * 2 <= v@.len() + 1,
        decreases v.len() - i,
    {
        let j: usize = skip_ws(v, i);
        let ghost rest = v@.skip(i as int);
        proof {
            lemma_prefix_while_facts(rest, ws_pred());
        }
        if j == v.len() {
            assert(split_ws(rest) == Seq::<Seq<char>>::empty());
            assert(r.deep_view() + Seq::<Seq<char>>::empty() =~= r.deep_view());
            return r;
        }
        assert(rest[j - i] == v@[j as int]);
        let k: usize = skip_non_ws(v, j);
        let w: Vec<char> = sub_chars(v, j, k);
        proof {
            let t = rest.skip(j - i);
            assert(t =~= v@.skip(j as int));
            assert(t.take(k - j) =~= w@);
            assert(t.skip(k - j) =~= v@.skip(k as int));
            assert(split_ws(rest) == seq![w@] + split_ws(v@.skip(k as int)));
        }
        let ghost before = r.deep_view();
        assert(w.deep_view() =~= w@);
        r.push(w);
        assert(r.deep_view() =~= before.push(w@));
        assert(before + (seq![w@] + split_ws(v@.skip(k as int))) =~= before.push(w@) + split_ws(
            v@.skip(k as int),
        ));
        i = k;
    }
}

/// `str::lines`.
pub fn lines_chars(v: &[char]) -> (r: Vec<Vec<char>>)
    ensures
        r.deep_view() == lines(v@),
{
    let mut r: Vec<Vec<char>> = Vec::new();
    let mut i: usize = 0;
    assert(v@.skip(0) =~= v@);
    assert(r.deep_view() =~= Seq::<Seq<char>>::empty());
    loop
        invariant
            i <= v@.len(),
            r.deep_view() + lines(v@.skip(i as int)) == lines(v@),
        decreases v.len() - i,
    {
        let ghost rest = v@.skip(i as int);
        let ghost before = r.deep_view();
        if i == v.len() {
            assert(lines(rest) == Seq::<Seq<char>>::empty());
            assert(before + Seq::<Seq<char>>::empty() =~= before);
            return r;
        }
        let k: usize = find_char(v, i, '\n');
        if k == v.len() {
            let w: Vec<char> = sub_chars(v, i, k);
            assert(w@ =~= rest);
            assert(w.deep_view() =~= w@);
        r.push(w);
            assert(r.deep_view() =~= before.push(w@));
            assert(before + seq![rest] =~= before.push(w@));
            return r;
        }
        let mut end: usize = k;
        if k > i && v[k - 1] == '\r' {
            end = k - 1;
        }
        let w: Vec<char> = sub_chars(v, i, end);
        proof {
            let line = rest.take(k - i);
            assert(w@ =~= strip_cr(line));
            assert(rest.skip(k - i + 1) =~= v@.skip(k + 1));
            assert(lines(rest) == seq![w@] + lines(v@.skip(k + 1)));
        }
        assert(w.deep_view() =~= w@);
        r.push(w);
        assert(r.deep_view() =~= before.push(w@));
        assert(before + (seq![w@] + lines(v@.skip(k + 1))) =~= before.push(w@) + lines(
            v@.skip(k + 1),
        ));
        i = k + 1;
    }
}

/// `str::splitn(n, c)` for `n >= 1`.
pub fn splitn_chars(v: &[char], n: usize, c: char) -> (r: Vec<Vec<char>>)
    requires
        n >= 1,
    ensures
        r.deep_view() == splitn(v@, n as nat, c),
{
    let mut r: Vec<Vec<char>> = Vec::new();
    let mut i: usize = 0;
    let mut left: usize = n;
    assert(v@.skip(0) =~= v@);
    assert(r.deep_view() =~= Seq::<Seq<char>>::empty());
    loop
        invariant
            i <= v@.len(),
            left >= 1,
            r.deep_view() + splitn(v@.skip(i as int), left as nat, c) == splitn(v@, n as nat, c),
        decreases left,
    {
        let ghost rest = v@.skip(i as int);
        let ghost before = r.deep_view();
        let k: usize = find_char(v, i, c);
        if left == 1 || k == v.len() {
            let w: Vec<char> = sub_chars(v, i, v.len());
            assert(w@ =~= rest);
            assert(w.deep_view() =~= w@);
        r.push(w);
            assert(r.deep_view() =~= before.push(w@));
            assert(before + seq![rest] =~= before.push(w@));
            return r;
        }
        let w: Vec<char> = sub_chars(v, i, k);
        proof {
            assert(w@ =~= rest.take(k - i));
            assert(rest.skip(k - i + 1) =~= v@.skip(k + 1));
            assert(splitn(rest, left as nat, c) == seq![w@] + splitn(
                v@.skip(k + 1),
                (left - 1) as nat,
                c,
            ));
        }
        assert(w.deep_view() =~= w@);
        r.push(w);
        assert(r.deep_view() =~= before.push(w@));
        assert(before + (seq![w@] + splitn(v@.skip(k + 1), (left - 1) as nat, c)) =~= before.push(
            w@,
        ) + splitn(v@.skip(k + 1), (left - 1) as nat, c));
        i = k + 1;
        left = left - 1;
    }
}

} // verus!

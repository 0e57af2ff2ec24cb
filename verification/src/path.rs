//! What the path commands decide before skia draws: the boolean operation, the order of
//! the cells of a grid, the pseudo-random offsets of `path_duplicate_random` and the seeds
//! of the sketches of `path_noise`.
use vstd::prelude::*;
use crate::chars::{chars_eq, string_from, trim, trim_chars};
use crate::error::{result_view, ErrorView, InputError};

verus! {

/// How `boolean` combines the paths.
#[derive(Clone, Copy, Debug, PartialEq, Eq, Structural)]
pub enum BooleanOp {
    Union,
    Intersect,
    Xor,
}

impl View for BooleanOp {
    type V = BooleanOp;

    open spec fn view(&self) -> BooleanOp {
        *self
    }
}

/// The operation that `data` names: `OR`, `AND` or `XOR`, with whitespace around.
pub open spec fn boolean_op(data: Seq<char>) -> Result<BooleanOp, ErrorView> {
    let v = trim(data);
    if v == "OR"@ {
        Ok(BooleanOp::Union)
    } else if v == "AND"@ {
        Ok(BooleanOp::Intersect)
    } else if v == "XOR"@ {
        Ok(BooleanOp::Xor)
    } else {
        Err(ErrorView::UnsupportedBooleanOp(v))
    }
}

/// The operation that the data of `boolean` names.
pub fn parse_boolean_op(data: &[char]) -> (r: Result<BooleanOp, InputError>)
    ensures
        result_view(r) == boolean_op(data@),
{
    let v: Vec<char> = trim_chars(data);
    if chars_eq(&v, "OR") {
        Ok(BooleanOp::Union)
    } else if chars_eq(&v, "AND") {
        Ok(BooleanOp::Intersect)
    } else if chars_eq(&v, "XOR") {
        Ok(BooleanOp::Xor)
    } else {
        Err(InputError::UnsupportedBooleanOp(string_from(&v)))
    }
}

/// The positions, in order, of the results that are not empty.
pub open spec fn nonempty_positions(empty: Seq<bool>) -> Seq<usize>
    decreases empty.len(),
{
    if empty.len() == 0 {
        Seq::empty()
    } else {
        let rest = nonempty_positions(empty.drop_last());
        if empty.last() {
            rest
        } else {
            rest.push((empty.len() - 1) as usize)
        }
    }
}

/// The results that stand in place of the paths after an operation that makes new paths
/// out of them, given which results came out empty: the non-empty ones, in order. Where
/// `fall_back` holds and none is left, `None`: the paths stay as they were (`round`,
/// `path_noise` and a single combined copy fall back; separate copies do not).
pub fn surviving_results(empty: &[bool], fall_back: bool) -> (r: Option<Vec<usize>>)
    ensures
        r is None <==> (fall_back && nonempty_positions(empty@).len() == 0),
        r matches Some(v) ==> v@ == nonempty_positions(empty@),
{
    let mut kept: Vec<usize> = Vec::new();
    let mut i: usize = 0;
    while i < empty.len()
        invariant
            i <= empty@.len(),
            kept@ == nonempty_positions(empty@.take(i as int)),
        decreases empty.len() - i,
    {
        assert(empty@.take(i + 1).drop_last() =~= empty@.take(i as int));
        if !empty[i] {
            kept.push(i);
        }
        i = i + 1;
    }
    assert(empty@.take(i as int) =~= empty@);
    if fall_back && kept.len() == 0 {
        None
    } else {
        Some(kept)
    }
}

/// The surviving results are exactly the non-empty ones, each once, in the order in which
/// they were made.
pub proof fn lemma_nonempty_positions(empty: Seq<bool>)
    requires
        empty.len() <= usize::MAX,
    ensures
        forall|k: int| 0 <= k < nonempty_positions(empty).len() ==> {
            let p = #[trigger] nonempty_positions(empty)[k];
            p < empty.len() && !empty[p as int]
        },
        forall|j: int, k: int| 0 <= j < k < nonempty_positions(empty).len() ==>
            nonempty_positions(empty)[j] < nonempty_positions(empty)[k],
        forall|i: int| 0 <= i < empty.len() && !empty[i] ==>
            exists|k: int| 0 <= k < nonempty_positions(empty).len() && nonempty_positions(empty)[k] == i,
    decreases empty.len(),
{
    if empty.len() > 0 {
        let rest = empty.drop_last();
        lemma_nonempty_positions(rest);
        let p = nonempty_positions(rest);
        let last = (empty.len() - 1) as int;
        assert forall|i: int| 0 <= i < empty.len() && !empty[i] implies
            exists|k: int| 0 <= k < nonempty_positions(empty).len() && nonempty_positions(empty)[k] == i by {
            if i < last {
                assert(rest[i] == empty[i]);
                let k = choose|k: int| 0 <= k < p.len() && p[k] == i;
                assert(nonempty_positions(empty)[k] == i);
            } else {
                assert(nonempty_positions(empty)[p.len() as int] == i);
            }
        }
    }
}

/// The `k`-th cell of a grid of `x_count` columns and `y_count` rows, as (column, row):
/// row by row, or column by column where `column_order` holds.
pub open spec fn grid_cell(k: int, x_count: int, y_count: int, column_order: bool) -> (usize, usize) {
    if column_order {
        ((k / y_count) as usize, (k % y_count) as usize)
    } else {
        ((k % x_count) as usize, (k / x_count) as usize)
    }
}

/// The cells of a grid of `x_count` by `y_count` in the order in which
/// `path_duplicate_grid` places copies: each row left to right, rows top to bottom; or,
/// where `column_order` holds, each column top to bottom, columns left to right.
pub fn grid_cells(x_count: usize, y_count: usize, column_order: bool) -> (cells: Vec<(usize, usize)>)
    requires
        x_count * y_count <= usize::MAX,
    ensures
        cells@.len() == x_count * y_count,
        forall|k: int| 0 <= k < cells@.len() ==> #[trigger] cells@[k] == grid_cell(k, x_count as int, y_count as int, column_order),
{
    let (outer, inner): (usize, usize) = if column_order {
        (x_count, y_count)
    } else {
        (y_count, x_count)
    };
    assert(outer * inner == x_count * y_count) by (nonlinear_arith)
        requires
            (outer == x_count && inner == y_count) || (outer == y_count && inner == x_count),
    ;
    let mut cells: Vec<(usize, usize)> = Vec::new();
    let mut o: usize = 0;
    while o < outer
        invariant
            o <= outer,
            outer * inner == x_count * y_count,
            x_count * y_count <= usize::MAX,
            column_order ==> outer == x_count && inner == y_count,
            !column_order ==> outer == y_count && inner == x_count,
            cells@.len() == o * inner,
            forall|k: int| 0 <= k < cells@.len() ==> #[trigger] cells@[k] == grid_cell(k, x_count as int, y_count as int, column_order),
        decreases outer - o,
    {
        let mut i: usize = 0;
        while i < inner
            invariant
                o < outer,
                i <= inner,
                outer * inner == x_count * y_count,
                x_count * y_count <= usize::MAX,
                column_order ==> outer == x_count && inner == y_count,
                !column_order ==> outer == y_count && inner == x_count,
                cells@.len() == o * inner + i,
                forall|k: int| 0 <= k < cells@.len() ==> #[trigger] cells@[k] == grid_cell(k, x_count as int, y_count as int, column_order),
            decreases inner - i,
        {
            let cell: (usize, usize) = if column_order {
                (o, i)
            } else {
                (i, o)
            };
            proof {
                let k = o * inner + i;
                vstd::arithmetic::div_mod::lemma_fundamental_div_mod_converse(k, inner as int, o as int, i as int);
            }
            cells.push(cell);
            i = i + 1;
        }
        assert(o * inner + inner == (o + 1) * inner) by (nonlinear_arith);
        o = o + 1;
    }
    cells
}

/// Both orders place a copy in every cell of the grid, each exactly once: the cell in
/// column `x` and row `y` is number `y * x_count + x` row by row and number
/// `x * y_count + y` column by column, and every number names a cell inside the grid.
pub proof fn lemma_grid_orders_cover_cells(x_count: int, y_count: int, x: int, y: int, k: int)
    requires
        0 <= x < x_count,
        0 <= y < y_count,
        0 <= k < x_count * y_count,
        x_count * y_count <= usize::MAX,
    ensures
        0 <= y * x_count + x < x_count * y_count,
        0 <= x * y_count + y < x_count * y_count,
        grid_cell(y * x_count + x, x_count, y_count, false) == (x as usize, y as usize),
        grid_cell(x * y_count + y, x_count, y_count, true) == (x as usize, y as usize),
        grid_cell(k, x_count, y_count, false).0 < x_count,
        grid_cell(k, x_count, y_count, false).1 < y_count,
        grid_cell(k, x_count, y_count, true).0 < x_count,
        grid_cell(k, x_count, y_count, true).1 < y_count,
{
    assert(0 <= y * x_count + x < x_count * y_count) by (nonlinear_arith)
        requires
            0 <= x < x_count,
            0 <= y < y_count,
    ;
    assert(0 <= x * y_count + y < x_count * y_count) by (nonlinear_arith)
        requires
            0 <= x < x_count,
            0 <= y < y_count,
    ;
    vstd::arithmetic::div_mod::lemma_fundamental_div_mod_converse(y * x_count + x, x_count, y, x);
    vstd::arithmetic::div_mod::lemma_fundamental_div_mod_converse(x * y_count + y, y_count, x, y);
    vstd::arithmetic::div_mod::lemma_div_pos_is_pos(k, x_count);
    vstd::arithmetic::div_mod::lemma_div_pos_is_pos(k, y_count);
    vstd::arithmetic::div_mod::lemma_mod_bound(k, x_count);
    vstd::arithmetic::div_mod::lemma_mod_bound(k, y_count);
    vstd::arithmetic::div_mod::lemma_multiply_divide_lt(k, x_count, y_count);
    vstd::arithmetic::mul::lemma_mul_is_commutative(x_count, y_count);
    vstd::arithmetic::div_mod::lemma_multiply_divide_lt(k, y_count, x_count);
}

/// One step of the linear congruential generator of `path_duplicate_random`.
pub open spec fn lcg_next(state: u32) -> u32 {
    ((state as int * 1_664_525 + 1_013_904_223) % 0x1_0000_0000) as u32
}

/// The state of the generator after `n` steps from `state`.
pub open spec fn lcg_state(state: u32, n: nat) -> u32
    decreases n,
{
    if n == 0 {
        state
    } else {
        lcg_next(lcg_state(state, (n - 1) as nat))
    }
}

/// Advances the generator and gives the top 24 bits of its new state, which the program
/// that draws divides by 16 777 215 to get a number in 0..=1.
pub fn random_generator(seed: &mut u32) -> (r: u32)
    ensures
        *final(seed) == lcg_next(*old(seed)),
        r == lcg_next(*old(seed)) >> 8u32,
        r < 0x100_0000,
{
    let m: u32 = seed.wrapping_mul(1_664_525);
    proof {
        let s = *seed as int;
        let big = 0x1_0000_0000int;
        assert(m == (s * 1_664_525) % big);
        vstd::arithmetic::div_mod::lemma_add_mod_noop(s * 1_664_525, 1_013_904_223, big);
        vstd::arithmetic::div_mod::lemma_small_mod(1_013_904_223nat, big as nat);
        vstd::arithmetic::div_mod::lemma_mod_bound(s * 1_664_525, big);
        if m + 1_013_904_223 >= big {
            vstd::arithmetic::div_mod::lemma_fundamental_div_mod_converse(m + 1_013_904_223, big, 1, m + 1_013_904_223 - big);
        } else {
            vstd::arithmetic::div_mod::lemma_small_mod((m + 1_013_904_223) as nat, big as nat);
        }
    }
    *seed = m.wrapping_add(1_013_904_223);
    let r: u32 = *seed >> 8u32;
    assert(r < 0x100_0000) by (bit_vector)
        requires
            r == *seed >> 8u32,
    ;
    r
}

/// The state that the generator of `path_duplicate_random` starts from: `seed`, or 1 where
/// `seed` is 0.
pub open spec fn start_state(seed: u32) -> u32 {
    if seed == 0 {
        1
    } else {
        seed
    }
}

/// The `k`-th pair of draws from `seed`: the top 24 bits of the generator's state after
/// `2k + 1` and `2k + 2` steps.
pub open spec fn random_draw(seed: u32, k: int) -> (u32, u32) {
    (lcg_state(start_state(seed), (2 * k + 1) as nat) >> 8u32, lcg_state(start_state(seed), (2 * k + 2) as nat) >> 8u32)
}

/// Seed 0 draws as seed 1 does, and every draw is below 2^24, so that the program that
/// draws turns it into a number in 0..=1 and an offset within half the spread.
pub proof fn lemma_random_draws(k: int)
    ensures
        random_draw(0, k) == random_draw(1, k),
        forall|seed: u32| #![trigger random_draw(seed, k)] random_draw(seed, k).0 < 0x100_0000 && random_draw(seed, k).1 < 0x100_0000,
{
    assert forall|seed: u32| #![trigger random_draw(seed, k)] random_draw(seed, k).0 < 0x100_0000 && random_draw(seed, k).1 < 0x100_0000 by {
        let a = lcg_state(start_state(seed), (2 * k + 1) as nat);
        let b = lcg_state(start_state(seed), (2 * k + 2) as nat);
        assert(a >> 8u32 < 0x100_0000u32 && b >> 8u32 < 0x100_0000u32) by (bit_vector);
    }
}

/// The draws of `path_duplicate_random` for `count` copies: the first copy stays where it
/// is, and each of the others takes two draws of the generator, first x then y, started
/// from `seed` (or from 1 where `seed` is 0).
pub fn random_draws(count: usize, seed: u32) -> (draws: Vec<(u32, u32)>)
    ensures
        count == 0 ==> draws@.len() == 0,
        count > 0 ==> draws@.len() == count - 1,
        forall|k: int| 0 <= k < draws@.len() ==> #[trigger] draws@[k] == random_draw(seed, k),
{
    let mut state: u32 = if seed == 0 {
        1
    } else {
        seed
    };
    let ghost s0 = state;
    let mut draws: Vec<(u32, u32)> = Vec::new();
    let mut index: usize = 1;
    while index < count
        invariant
            1 <= index,
            count > 0 ==> index <= count,
            count == 0 ==> index == 1,
            s0 == (if seed == 0 { 1u32 } else { seed }),
            draws@.len() == index - 1,
            state == lcg_state(s0, (2 * (index - 1)) as nat),
            forall|k: int| 0 <= k < draws@.len() ==> #[trigger] draws@[k] == (lcg_state(s0, (2 * k + 1) as nat) >> 8u32, lcg_state(s0, (2 * k + 2) as nat) >> 8u32),
        decreases count - index,
    {
        let x: u32 = random_generator(&mut state);
        let y: u32 = random_generator(&mut state);
        assert(lcg_state(s0, (2 * (index - 1) + 1) as nat) == lcg_next(lcg_state(s0, (2 * (index - 1)) as nat)));
        assert(lcg_state(s0, (2 * (index - 1) + 2) as nat) == lcg_next(lcg_state(s0, (2 * (index - 1) + 1) as nat)));
        draws.push((x, y));
        index = index + 1;
    }
    draws
}

/// The seeds of the `sketch_count` sketches of `path_noise` (at least one): `seed`, then
/// one more for each further sketch, wrapping around.
pub fn noise_seeds(seed: u32, sketch_count: usize) -> (seeds: Vec<u32>)
    ensures
        seeds@.len() == if sketch_count == 0 { 1 } else { sketch_count },
        forall|k: int| 0 <= k < seeds@.len() ==> #[trigger] seeds@[k] == ((seed as int + k) % 0x1_0000_0000) as u32,
{
    let count: usize = if sketch_count == 0 {
        1
    } else {
        sketch_count
    };
    let mut seeds: Vec<u32> = Vec::new();
    let mut index: usize = 0;
    while index < count
        invariant
            index <= count,
            count == if sketch_count == 0 { 1 } else { sketch_count },
            seeds@.len() == index,
            forall|k: int| 0 <= k < seeds@.len() ==> #[trigger] seeds@[k] == ((seed as int + k) % 0x1_0000_0000) as u32,
        decreases count - index,
    {
        let low: u32 = ((index as u64) % 0x1_0000_0000) as u32;
        let s: u32 = seed.wrapping_add(low);
        proof {
            let big = 0x1_0000_0000int;
            assert(low == index as int % big);
            vstd::arithmetic::div_mod::lemma_add_mod_noop_right(seed as int, index as int, big);
            vstd::arithmetic::div_mod::lemma_small_mod(seed as nat, big as nat);
            if seed + low >= big {
                vstd::arithmetic::div_mod::lemma_fundamental_div_mod_converse(seed + low, big, 1, seed + low - big);
            } else {
                vstd::arithmetic::div_mod::lemma_small_mod((seed + low) as nat, big as nat);
            }
        }
        seeds.push(s);
        index = index + 1;
    }
    seeds
}

} // verus!

use vector_canvas::error::InputError;
use vector_canvas::path::{grid_cells, noise_seeds, parse_boolean_op, random_draws, random_generator, surviving_results, BooleanOp};

fn chars(s: &str) -> Vec<char> {
    s.chars().collect()
}

#[test]
fn boolean_operations() {
    assert_eq!(parse_boolean_op(&chars(" OR ")), Ok(BooleanOp::Union));
    assert_eq!(parse_boolean_op(&chars("AND")), Ok(BooleanOp::Intersect));
    assert_eq!(parse_boolean_op(&chars("XOR\t")), Ok(BooleanOp::Xor));
    assert_eq!(parse_boolean_op(&chars(" or ")), Err(InputError::UnsupportedBooleanOp("or".to_string())));
}

#[test]
fn grid_cells_row_and_column_order() {
    assert_eq!(grid_cells(3, 2, false), vec![(0, 0), (1, 0), (2, 0), (0, 1), (1, 1), (2, 1)]);
    assert_eq!(grid_cells(3, 2, true), vec![(0, 0), (0, 1), (1, 0), (1, 1), (2, 0), (2, 1)]);
    assert_eq!(grid_cells(1, 1, false), vec![(0, 0)]);
    let mut a = grid_cells(4, 5, false);
    let mut b = grid_cells(4, 5, true);
    a.sort();
    b.sort();
    assert_eq!(a, b);
}

#[test]
fn generator_sequence() {
    let mut state: u32 = 1;
    assert_eq!(random_generator(&mut state), 3967065);
    assert_eq!(state, 1015568748);
    assert_eq!(random_generator(&mut state), 6195333);
    assert_eq!(random_draws(3, 0), vec![(3967065, 6195333), (8459777, 11825978)]);
    assert_eq!(random_draws(3, 1), random_draws(3, 0));
    assert_eq!(random_draws(2, 42), vec![(4233649, 1478492)]);
    assert!(random_draws(1, 42).is_empty());
    assert!(random_draws(0, 42).is_empty());
}

#[test]
fn noise_seeds_wrap() {
    assert_eq!(noise_seeds(u32::MAX, 3), vec![u32::MAX, 0, 1]);
    assert_eq!(noise_seeds(5, 0), vec![5]);
}

#[test]
fn surviving_results_keep_nonempty_in_order() {
    assert_eq!(surviving_results(&[false, true, false], true), Some(vec![0, 2]));
    assert_eq!(surviving_results(&[false, true, false], false), Some(vec![0, 2]));
    assert_eq!(surviving_results(&[true, true], true), None);
    assert_eq!(surviving_results(&[true, true], false), Some(vec![]));
    assert_eq!(surviving_results(&[], true), None);
    assert_eq!(surviving_results(&[], false), Some(vec![]));
}

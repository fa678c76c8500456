use rao_forward::modes::{min_radial_order, mode_table, MAX_MODES};

#[test]
fn minimal_order_of_small_counts() {
    assert_eq!(min_radial_order(0), 0);
    assert_eq!(min_radial_order(1), 1);
    assert_eq!(min_radial_order(2), 2);
    assert_eq!(min_radial_order(3), 2);
    assert_eq!(min_radial_order(4), 3);
    assert_eq!(min_radial_order(6), 3);
    assert_eq!(min_radial_order(7), 4);
    assert_eq!(min_radial_order(21), 6);
    assert_eq!(min_radial_order(22), 7);
}

#[test]
fn minimal_order_at_index_limit() {
    assert_eq!(min_radial_order(MAX_MODES as usize), 92681);
}

#[test]
fn table_of_three_coefficients() {
    assert_eq!(mode_table(3), vec![(1, 0, 0), (2, 1, 1), (3, 1, 1)]);
}

#[test]
fn table_follows_noll_order() {
    let t = mode_table(21);
    let j: Vec<u32> = t.iter().map(|x| x.0).collect();
    let n: Vec<u32> = t.iter().map(|x| x.1).collect();
    let m: Vec<u32> = t.iter().map(|x| x.2).collect();
    assert_eq!(j, (1..=21).collect::<Vec<u32>>());
    assert_eq!(n, vec![0, 1, 1, 2, 2, 2, 3, 3, 3, 3, 4, 4, 4, 4, 4, 5, 5, 5, 5, 5, 5]);
    assert_eq!(m, vec![0, 1, 1, 0, 2, 2, 1, 1, 3, 3, 0, 2, 2, 4, 4, 1, 1, 3, 3, 5, 5]);
}

#[test]
fn table_has_one_mode_per_coefficient() {
    for l in 0..40usize {
        assert_eq!(mode_table(l).len(), l);
    }
}

#[test]
fn shorter_tables_are_prefixes() {
    let full = mode_table(28);
    for l in 0..28usize {
        assert_eq!(mode_table(l)[..], full[..l]);
    }
}

#[test]
fn empty_table() {
    assert!(mode_table(0).is_empty());
}

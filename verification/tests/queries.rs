use plutus_halo2_verifier_gen::stats::column::Column;
use plutus_halo2_verifier_gen::stats::point_sets::{count_queries, group_queries};
use plutus_halo2_verifier_gen::stats::rotation_set::RotationSet;

fn cur_next() -> RotationSet {
    RotationSet::new(false, false, true, true, false)
}

#[test]
fn rotation_set_counts_and_keys() {
    let all = RotationSet::new(true, true, true, true, true);
    assert_eq!(all.count(), 5);
    assert_eq!(all.key(), 31);
    assert_eq!(RotationSet::curr().count(), 1);
    assert_eq!(RotationSet::curr().key(), 4);
    assert!(RotationSet::none().is_empty());
    assert_eq!(RotationSet::none().key(), 0);
}

#[test]
fn rotation_set_merge_is_a_union() {
    let mut a = RotationSet::curr();
    a.merge(&RotationSet::new(true, false, false, true, false));
    assert_eq!(a, RotationSet::new(true, false, true, true, false));
    assert_eq!(a.count(), 3);
}

#[test]
fn queries_are_counted_by_key() {
    let q = vec![RotationSet::curr(), cur_next(), RotationSet::curr()];
    let c = count_queries(&q);
    assert_eq!(c.len(), 32);
    assert_eq!(c[4], 2);
    assert_eq!(c[6], 1);
    assert_eq!(c.iter().sum::<usize>(), 3);
}

#[test]
fn queries_group_in_key_order() {
    let last = RotationSet::new(false, false, true, true, true);
    let prev = RotationSet::new(false, true, true, false, false);
    let q = vec![last, RotationSet::curr(), prev, cur_next(), RotationSet::curr()];
    let (map, sizes, nb_sets, max) = group_queries(&q);
    // keys: current 4, current+next 6, current+next+last 7, previous+current 12
    assert_eq!(map, vec![vec![1, 1], vec![2], vec![3], vec![2]]);
    assert_eq!(sizes, vec![1, 2, 3, 2]);
    assert_eq!(nb_sets, 4);
    assert_eq!(max, 2);
    // every query is opened at exactly one set
    assert_eq!(map.iter().map(|e| e.len()).sum::<usize>(), q.len());
}

#[test]
fn no_query_gives_no_set() {
    let (map, sizes, nb_sets, max) = group_queries(&vec![]);
    assert!(map.is_empty());
    assert!(sizes.is_empty());
    assert_eq!(nb_sets, 0);
    assert_eq!(max, 1);
}

#[test]
fn merged_columns_join_rotations_and_copy_constraints() {
    let mut c = Column::empty_advice();
    c.merge_column(Column::advice(RotationSet::curr(), false));
    c.merge_column(Column::advice(cur_next(), true));
    assert!(c.is_copy_constrained());
    assert_eq!(c.rotations(), cur_next());
}

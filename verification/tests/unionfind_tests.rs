use smplcache::unionfind::UnionFind;

#[test]
fn fresh_structure_has_singleton_classes() {
    let mut uf = UnionFind::new(4);
    for i in 0..4 {
        assert_eq!(uf.find(i), i);
    }
    assert_eq!(uf.components(4), vec![vec![0], vec![1], vec![2], vec![3]]);
}

#[test]
fn union_joins_two_classes_and_reports_whether_it_merged() {
    let mut uf = UnionFind::new(5);
    assert!(uf.union(0, 1));
    assert_eq!(uf.find(0), uf.find(1));
    assert!(!uf.union(1, 0));
    assert!(uf.union(3, 4));
    assert!(uf.union(1, 4));
    assert_eq!(uf.find(0), uf.find(3));
    assert_ne!(uf.find(0), uf.find(2));
    assert_eq!(uf.components(5), vec![vec![0, 1, 3, 4], vec![2]]);
}

#[test]
fn components_of_a_prefix_list_only_its_elements() {
    let mut uf = UnionFind::new(4);
    uf.union(0, 3);
    uf.union(1, 2);
    assert_eq!(uf.components(2), vec![vec![0], vec![1]]);
    assert_eq!(uf.components(4), vec![vec![0, 3], vec![1, 2]]);
}

#[test]
fn union_by_rank_keeps_the_higher_root() {
    let mut uf = UnionFind::new(3);
    uf.union(0, 1); // equal ranks: 1 joins 0
    assert_eq!(uf.find(1), 0);
    uf.union(2, 1); // 2 has the lower rank: it joins 0
    assert_eq!(uf.find(2), 0);
}

use vimming::models::{
    DbObject, Environment, GroupCfgLinkInsert, GroupedEnvironment, LinkedGroups,
};
use vimming::reconcile::hashset_comparison;

fn group(id: i32) -> LinkedGroups {
    LinkedGroups { group: GroupedEnvironment { id, name: format!("g{id}") }, environments: vec![] }
}

fn ids<T: DbObject>(items: &[&T]) -> Vec<i32> {
    items.iter().map(|t| t.id()).collect()
}

#[test]
fn reconcile_symmetric_difference() {
    let old = vec![1, 2, 3, 4];
    let new = vec![3, 5, 4, 6];
    let (added, removed) = hashset_comparison(&old, &new);
    assert_eq!(added, vec![&5, &6]);
    assert_eq!(removed, vec![&1, &2]);
}

#[test]
fn reconcile_applying_the_changes_gives_the_new_membership() {
    let old = vec![10, -3, 7, 0, 22];
    let new = vec![7, 8, 22, 9, -3, i32::MAX];
    let (added, removed) = hashset_comparison(&old, &new);
    let mut applied: std::collections::BTreeSet<i32> = old.iter().copied().collect();
    for r in &removed {
        assert!(applied.remove(*r));
    }
    for a in &added {
        assert!(applied.insert(**a));
    }
    let want: std::collections::BTreeSet<i32> = new.iter().copied().collect();
    assert_eq!(applied, want);
    assert!(added.iter().all(|a| !removed.contains(a)));
}

#[test]
fn reconcile_equal_memberships_change_nothing() {
    let old = vec![1, 2, 3];
    let new = vec![3, 1, 2, 1];
    let (added, removed) = hashset_comparison(&old, &new);
    assert!(added.is_empty());
    assert!(removed.is_empty());
    let (added, removed) = hashset_comparison::<i32, i32>(&[], &[]);
    assert!(added.is_empty());
    assert!(removed.is_empty());
}

#[test]
fn reconcile_from_nothing_and_to_nothing() {
    let some = vec![4, 5];
    let none: Vec<i32> = vec![];
    let (added, removed) = hashset_comparison(&none, &some);
    assert_eq!((added, removed), (vec![&4, &5], vec![]));
    let (added, removed) = hashset_comparison(&some, &none);
    assert_eq!((added, removed), (vec![], vec![&4, &5]));
}

#[test]
fn reconcile_does_not_deduplicate() {
    let old = vec![1, 1, 2];
    let new = vec![3, 3, 2, 3];
    let (added, removed) = hashset_comparison(&old, &new);
    assert_eq!(added, vec![&3, &3, &3]);
    assert_eq!(removed, vec![&1, &1]);
}

#[test]
fn reconcile_across_kinds_by_identity() {
    let old = vec![group(1), group(2), group(3)];
    let (g2, g3, g4, c) = (2, 3, 4, 77);
    let new = vec![
        GroupCfgLinkInsert { group_id: &g4, config_id: &c },
        GroupCfgLinkInsert { group_id: &g2, config_id: &c },
        GroupCfgLinkInsert { group_id: &g3, config_id: &c },
    ];
    let (added, removed) = hashset_comparison(&old, &new);
    assert_eq!(ids(&added), vec![4]);
    assert_eq!(*added[0].config_id, 77);
    assert_eq!(ids(&removed), vec![1]);
    assert_eq!(removed[0].group.name, "g1");
}

#[test]
fn reconcile_returns_the_elements_themselves() {
    let old = vec![Environment { id: 1, name: "A".into(), value: "x".into() }];
    let new = vec![Environment { id: 2, name: "B".into(), value: "y".into() }];
    let (added, removed) = hashset_comparison(&old, &new);
    assert!(std::ptr::eq(added[0], &new[0]));
    assert!(std::ptr::eq(removed[0], &old[0]));
}

fn step(state: &mut u64) -> i32 {
    *state = state.wrapping_mul(6364136223846793005).wrapping_add(1442695040888963407);
    ((*state >> 33) % 9) as i32 - 4
}

#[test]
fn reconcile_agrees_with_a_linear_search() {
    let mut state = 11u64;
    for round in 0..300 {
        let old: Vec<i32> = (0..step(&mut state) + 4).map(|_| step(&mut state)).collect();
        let new: Vec<i32> = (0..step(&mut state) + 4).map(|_| step(&mut state)).collect();
        let (added, removed) = hashset_comparison(&old, &new);
        let want_added: Vec<&i32> = new.iter().filter(|n| !old.contains(n)).collect();
        let want_removed: Vec<&i32> = old.iter().filter(|o| !new.contains(o)).collect();
        assert_eq!(added, want_added, "round {round}");
        assert_eq!(removed, want_removed, "round {round}");
    }
}

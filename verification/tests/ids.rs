use app_runtime::ids::remove_all;

#[test]
fn remove_all_takes_every_occurrence_and_keeps_order() {
    let mut v = vec![3u64, 1, 3, 2, 3];
    remove_all(&mut v, 3);
    assert_eq!(v, vec![1, 2]);
}

#[test]
fn remove_all_of_absent_id_changes_nothing() {
    let mut v = vec![1u64, 2, 4];
    remove_all(&mut v, 3);
    assert_eq!(v, vec![1, 2, 4]);
}

#[test]
fn remove_all_on_empty_list() {
    let mut v: Vec<u64> = Vec::new();
    remove_all(&mut v, 0);
    assert!(v.is_empty());
}

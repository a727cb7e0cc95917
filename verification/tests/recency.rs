use piston::recency::RecencyList;

fn order(list: &RecencyList) -> Vec<u32> {
    let mut ids = Vec::new();
    for index in 0..list.len() {
        ids.push(list.id_at(index));
    }
    ids
}

#[test]
fn new_list_is_empty() {
    let list = RecencyList::new(3);
    assert_eq!(list.len(), 0);
    assert_eq!(list.limit(), 3);
    assert!(!list.contains(1));
}

#[test]
fn insert_appends_while_there_is_room() {
    let mut list = RecencyList::new(3);
    assert_eq!(list.insert(5), None);
    assert_eq!(list.insert(6), None);
    assert_eq!(list.insert(7), None);
    assert_eq!(order(&list), vec![5, 6, 7]);
}

#[test]
fn insert_into_a_full_list_evicts_the_least_recent() {
    let mut list = RecencyList::new(3);
    list.insert(5);
    list.insert(6);
    list.insert(7);
    assert_eq!(list.insert(8), Some(5));
    assert_eq!(order(&list), vec![6, 7, 8]);
    assert!(!list.contains(5));
}

#[test]
fn insert_of_a_resident_id_moves_it_to_the_end() {
    let mut list = RecencyList::new(3);
    list.insert(5);
    list.insert(6);
    list.insert(7);
    assert_eq!(list.insert(5), None);
    assert_eq!(order(&list), vec![6, 7, 5]);
}

#[test]
fn touch_moves_a_resident_id_to_the_end() {
    let mut list = RecencyList::new(4);
    list.insert(1);
    list.insert(2);
    list.insert(3);
    assert!(list.touch(2));
    assert_eq!(order(&list), vec![1, 3, 2]);
    assert!(list.touch(2));
    assert_eq!(order(&list), vec![1, 3, 2]);
}

#[test]
fn touch_of_an_absent_id_changes_nothing() {
    let mut list = RecencyList::new(4);
    list.insert(1);
    list.insert(2);
    assert!(!list.touch(9));
    assert_eq!(order(&list), vec![1, 2]);
}

#[test]
fn position_of_finds_the_index() {
    let mut list = RecencyList::new(4);
    list.insert(10);
    list.insert(20);
    assert_eq!(list.position_of(20), Some(1));
    assert_eq!(list.position_of(10), Some(0));
    assert_eq!(list.position_of(30), None);
}

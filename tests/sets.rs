use baba_bot::idset::{contains_id, ids_text, insert_id, parse_ids, remove_id};

#[test]
fn opting_in_twice_keeps_one_entry() {
    let mut ids = vec![1u64, 2, 3];
    insert_id(&mut ids, 2);
    assert_eq!(ids, vec![1, 2, 3]);
    insert_id(&mut ids, 4);
    insert_id(&mut ids, 4);
    assert_eq!(ids, vec![1, 2, 3, 4]);
}

#[test]
fn opting_out_someone_absent_changes_nothing() {
    let mut ids = vec![1u64, 2, 3];
    remove_id(&mut ids, 9);
    assert_eq!(ids, vec![1, 2, 3]);
    remove_id(&mut ids, 2);
    assert_eq!(ids, vec![1, 3]);
    remove_id(&mut ids, 2);
    assert_eq!(ids, vec![1, 3]);
}

#[test]
fn membership() {
    let ids = vec![5u64, 6];
    assert!(contains_id(&ids, 6));
    assert!(!contains_id(&ids, 7));
    assert!(!contains_id(&Vec::new(), 7));
}

#[test]
fn stored_text_round_trip() {
    assert_eq!(parse_ids("1\n2\n2\nhello\n3"), vec![1, 2, 3]);
    assert_eq!(parse_ids("1 2 3"), vec![1, 2, 3]);
    assert_eq!(parse_ids(""), Vec::<u64>::new());
    assert_eq!(ids_text(&vec![10, 284883095981916160]), "10\n284883095981916160\n");
    assert_eq!(parse_ids(&ids_text(&vec![7, 0, 12])), vec![7, 0, 12]);
}

use freally_player::store::{FileIdentity, Row, StoreTable, MAX_ENTRIES};

fn id(size: u64, modified: Option<u64>) -> FileIdentity {
    FileIdentity { size, modified_ms: modified }
}

#[test]
fn nothing_is_remembered_in_an_empty_table() {
    let t: StoreTable<u32> = StoreTable::new();
    assert_eq!(t.get("clip.mkv", id(5, Some(1))), None);
    assert!(t.recent(10).is_empty());
}

#[test]
fn a_stored_value_reads_back_for_the_same_file() {
    let mut t = StoreTable::new();
    t.set("clip.mkv", 42u32, id(11, Some(7)), 1000);
    assert_eq!(t.get("clip.mkv", id(11, Some(7))), Some(42));
    assert_eq!(t.get("other.mkv", id(11, Some(7))), None);
}

#[test]
fn a_changed_file_gets_nothing_back() {
    let mut t = StoreTable::new();
    t.set("clip.mkv", 1u32, id(8, Some(100)), 1000);
    assert_eq!(t.get("clip.mkv", id(40, Some(200))), None);
    assert_eq!(t.get("clip.mkv", id(8, None)), None);
}

#[test]
fn clearing_forgets_a_path() {
    let mut t = StoreTable::new();
    t.set("clip.mkv", 1u32, id(8, None), 1000);
    assert!(t.clear("clip.mkv"));
    assert_eq!(t.get("clip.mkv", id(8, None)), None);
    assert!(!t.clear("clip.mkv"));
}

#[test]
fn the_recent_list_runs_newest_first_and_honours_the_limit() {
    let mut t = StoreTable::new();
    t.set("first.mkv", 30u32, id(3, None), 1000);
    t.set("second.mkv", 40u32, id(10, None), 2000);
    let recent = t.recent(10);
    assert_eq!(recent.len(), 2);
    assert_eq!(recent[0], ("second.mkv".to_owned(), 40));
    assert_eq!(recent[1], ("first.mkv".to_owned(), 30));
    assert_eq!(t.recent(1).len(), 1);
    // Storing again moves a path to the front.
    t.set("first.mkv", 31u32, id(3, None), 3000);
    assert_eq!(t.recent(1), vec![("first.mkv".to_owned(), 31)]);
    assert_eq!(t.len(), 2);
}

#[test]
fn the_table_is_bounded_and_drops_the_oldest() {
    let mut t = StoreTable::new();
    for i in 0..(MAX_ENTRIES as u64 + 3) {
        t.set(&format!("f{i}.mkv"), i, id(i, None), 1_000 + i);
    }
    assert_eq!(t.len(), MAX_ENTRIES);
    assert_eq!(t.get("f0.mkv", id(0, None)), None);
    assert_eq!(t.get("f2.mkv", id(2, None)), None);
    assert_eq!(t.get("f3.mkv", id(3, None)), Some(3));
    let last = MAX_ENTRIES as u64 + 2;
    assert_eq!(t.get(&format!("f{last}.mkv"), id(last, None)), Some(last));
}

#[test]
fn loading_rows_keeps_the_last_row_per_path_newest_first() {
    let row = |p: u32, t: u64| Row { payload: p, identity: id(1, None), updated_ms: t };
    let t = StoreTable::from_rows(vec![
        ("a".to_owned(), row(1, 10)),
        ("b".to_owned(), row(2, 30)),
        ("a".to_owned(), row(3, 20)),
    ]);
    assert_eq!(t.len(), 2);
    assert_eq!(t.get("a", id(1, None)), Some(3));
    assert_eq!(t.recent(5), vec![("b".to_owned(), 2), ("a".to_owned(), 3)]);
}

#[test]
fn every_row_is_written_out_newest_first() {
    let mut t = StoreTable::new();
    t.set("a", 1u8, id(1, Some(5)), 10);
    t.set("b", 2u8, id(2, None), 20);
    let rows = t.rows();
    assert_eq!(rows.len(), 2);
    assert_eq!(rows[0].0, "b");
    assert_eq!(rows[0].1, Row { payload: 2, identity: id(2, None), updated_ms: 20 });
    assert_eq!(rows[1].1, Row { payload: 1, identity: id(1, Some(5)), updated_ms: 10 });
}

#[test]
fn a_value_stored_with_a_clock_that_went_back_still_reads_back() {
    let mut t = StoreTable::new();
    t.set("newer.mkv", 1u32, id(1, Some(1)), 5000);
    t.set("clip.mkv", 2u32, id(2, Some(2)), 1000);
    assert_eq!(t.get("clip.mkv", id(2, Some(2))), Some(2));
    assert_eq!(t.get("newer.mkv", id(1, Some(1))), Some(1));
}

#[test]
fn a_resume_point_survives_writing_the_rows_out_and_loading_them_back() {
    let mut t = StoreTable::new();
    t.set("a.mkv", 7u32, id(3, Some(9)), 2000);
    t.set("b.mkv", 8u32, id(4, Some(9)), 2000);
    t.set("clip.mkv", 42u32, id(11, Some(7)), 1000);
    let back = StoreTable::from_rows(t.rows());
    assert_eq!(back.get("clip.mkv", id(11, Some(7))), Some(42));
    assert_eq!(back.get("a.mkv", id(3, Some(9))), Some(7));
    assert_eq!(back.get("b.mkv", id(4, Some(9))), Some(8));
    assert_eq!(back.get("clip.mkv", id(12, Some(7))), None);
}

#[test]
fn a_full_table_keeps_a_new_row_when_some_row_is_older() {
    let mut t = StoreTable::new();
    for i in 0..MAX_ENTRIES as u64 {
        t.set(&format!("f{i}.mkv"), 1u32, id(1, None), if i == 0 { 10 } else { 5000 });
    }
    t.set("new.mkv", 2u32, id(2, None), 100);
    assert_eq!(t.len(), MAX_ENTRIES);
    assert_eq!(t.get("new.mkv", id(2, None)), Some(2));
    assert_eq!(t.get("f0.mkv", id(1, None)), None);
}

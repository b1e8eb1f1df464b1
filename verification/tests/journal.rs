use qqh::error::AppError;
use qqh::journal::{
    get_last_index, index_after, newest_pending, pop_from_table, remove_from_table, store_entry,
    try_write_table, write_table, BLOG_TABLE, DATE_TABLE,
};
use redb::backends::InMemoryBackend;
use redb::{Database, ReadableDatabase, ReadableTable, TableDefinition, WriteTransaction};

fn database() -> Database {
    Database::builder()
        .create_with_backend(InMemoryBackend::new())
        .unwrap()
}

fn entries(txn: &WriteTransaction) -> Vec<(u64, String)> {
    let table = txn
        .open_table(TableDefinition::<u64, String>::new("index_blog_list"))
        .unwrap();
    let rows = table.iter().unwrap();
    rows.map(|row| row.unwrap())
        .map(|row| (row.0.value(), row.1.value()))
        .collect()
}

fn dates(txn: &WriteTransaction) -> Vec<(u64, u64)> {
    let table = txn
        .open_table(TableDefinition::<u64, u64>::new("index_date_list"))
        .unwrap();
    let rows = table.iter().unwrap();
    rows.map(|row| row.unwrap())
        .map(|row| (row.0.value(), row.1.value()))
        .collect()
}

fn dated(txn: &WriteTransaction) -> Vec<u64> {
    dates(txn).into_iter().map(|row| row.0).collect()
}

fn rows(list: &[(u64, &str)]) -> Vec<(u64, String)> {
    list.iter().map(|row| (row.0, row.1.to_string())).collect()
}

fn write(txn: &mut WriteTransaction, content: &str) -> u64 {
    write_table(content.to_string(), txn).unwrap()
}

#[test]
fn the_tables_have_their_names() {
    assert_eq!(BLOG_TABLE, "index_blog_list");
    assert_eq!(DATE_TABLE, "index_date_list");
}

#[test]
fn indices_count_up_from_zero() {
    assert_eq!(index_after(None), 0);
    assert_eq!(index_after(Some(0)), 1);
    assert_eq!(index_after(Some(u64::MAX - 1)), u64::MAX);
    let db = database();
    let mut txn = db.begin_write().unwrap();
    assert_eq!(write(&mut txn, "a"), 0);
    assert_eq!(write(&mut txn, "b"), 1);
    assert_eq!(write(&mut txn, "c"), 2);
    assert_eq!(entries(&txn), rows(&[(0, "a"), (1, "b"), (2, "c")]));
    assert_eq!(dated(&txn), vec![0, 1, 2]);
}

#[test]
fn an_entry_gets_the_time_of_the_clock() {
    let now = || {
        std::time::SystemTime::now()
            .duration_since(std::time::UNIX_EPOCH)
            .unwrap()
            .as_secs()
    };
    let db = database();
    let mut txn = db.begin_write().unwrap();
    let before = now();
    write(&mut txn, "a");
    let after = now();
    let time = dates(&txn)[0].1;
    assert!(before <= time && time <= after);
}

#[test]
fn a_stored_entry_is_read_back() {
    let db = database();
    let mut txn = db.begin_write().unwrap();
    store_entry(5, "five".to_string(), 55, &mut txn).unwrap();
    store_entry(2, "two".to_string(), 22, &mut txn).unwrap();
    assert_eq!(entries(&txn), rows(&[(2, "two"), (5, "five")]));
    assert_eq!(dates(&txn), vec![(2, 22), (5, 55)]);
    assert_eq!(newest_pending(&mut txn).unwrap(), Some(5));
    store_entry(2, "again".to_string(), 23, &mut txn).unwrap();
    assert_eq!(entries(&txn), rows(&[(2, "again"), (5, "five")]));
    assert_eq!(dates(&txn), vec![(2, 23), (5, 55)]);
}

#[test]
fn an_empty_log_has_no_newest_entry() {
    let db = database();
    let mut txn = db.begin_write().unwrap();
    assert_eq!(newest_pending(&mut txn).unwrap(), None);
    assert_eq!(entries(&txn), rows(&[]));
}

#[test]
fn to_pop_removes_the_newest() {
    let db = database();
    let mut txn = db.begin_write().unwrap();
    write(&mut txn, "a");
    write(&mut txn, "b");
    let record = pop_from_table(&mut txn).unwrap();
    assert_eq!(record, Some((1, "b".to_string())));
    assert_eq!(entries(&txn), rows(&[(0, "a")]));
    assert_eq!(dated(&txn), vec![0]);
}

#[test]
fn to_pop_undoes_a_write() {
    let db = database();
    let mut txn = db.begin_write().unwrap();
    write(&mut txn, "a");
    write(&mut txn, "b");
    let (texts, times) = (entries(&txn), dates(&txn));
    assert_eq!(write(&mut txn, "c"), 2);
    pop_from_table(&mut txn).unwrap();
    assert_eq!(entries(&txn), texts);
    assert_eq!(dates(&txn), times);
    assert_eq!(write(&mut txn, "d"), 2);
}

#[test]
fn to_pop_an_empty_log_changes_nothing() {
    let db = database();
    let mut txn = db.begin_write().unwrap();
    assert_eq!(pop_from_table(&mut txn).unwrap(), None);
    assert_eq!(entries(&txn), rows(&[]));
    assert_eq!(dates(&txn), vec![]);
    assert_eq!(write(&mut txn, "a"), 0);
}

#[test]
fn to_remove_takes_one_entry() {
    let db = database();
    let mut txn = db.begin_write().unwrap();
    write(&mut txn, "a");
    write(&mut txn, "b");
    write(&mut txn, "c");
    remove_from_table(1, &mut txn).unwrap();
    assert_eq!(entries(&txn), rows(&[(0, "a"), (2, "c")]));
    assert_eq!(dated(&txn), vec![0, 2]);
    remove_from_table(1, &mut txn).unwrap();
    remove_from_table(99, &mut txn).unwrap();
    assert_eq!(entries(&txn), rows(&[(0, "a"), (2, "c")]));
    assert_eq!(dated(&txn), vec![0, 2]);
    assert_eq!(write(&mut txn, "d"), 3);
}

#[test]
fn the_index_of_a_removed_newest_entry_is_used_again() {
    let db = database();
    let mut txn = db.begin_write().unwrap();
    write(&mut txn, "a");
    write(&mut txn, "b");
    remove_from_table(1, &mut txn).unwrap();
    assert_eq!(write(&mut txn, "c"), 1);
}

#[test]
fn the_largest_index_is_the_last_one() {
    let db = database();
    let mut txn = db.begin_write().unwrap();
    store_entry(u64::MAX - 1, "last but one".to_string(), 1, &mut txn).unwrap();
    let last = try_write_table("last".to_string(), &mut txn).unwrap();
    assert_eq!(last, Some(u64::MAX));
    let none = try_write_table("too many".to_string(), &mut txn).unwrap();
    assert_eq!(none, None);
    assert_eq!(
        entries(&txn),
        rows(&[(u64::MAX - 1, "last but one"), (u64::MAX, "last")])
    );
    assert_eq!(dated(&txn), vec![u64::MAX - 1, u64::MAX]);
}

#[test]
fn a_table_of_another_type_is_an_error() {
    let db = database();
    let mut txn = db.begin_write().unwrap();
    drop(
        txn.open_table(TableDefinition::<u64, String>::new(DATE_TABLE))
            .unwrap(),
    );
    let error = write_table("a".to_string(), &mut txn).unwrap_err();
    assert!(matches!(error, AppError::Table(_)));
    assert!(pop_from_table(&mut txn).is_err());
    assert!(remove_from_table(0, &mut txn).is_err());
    assert_eq!(entries(&txn), rows(&[]));
}

#[test]
fn a_failed_pop_keeps_the_entry() {
    let db = database();
    let mut txn = db.begin_write().unwrap();
    {
        let mut table = txn
            .open_table(TableDefinition::<u64, String>::new(BLOG_TABLE))
            .unwrap();
        table.insert(0, "a".to_string()).unwrap();
        txn.open_table(TableDefinition::<u64, String>::new(DATE_TABLE))
            .unwrap();
    }
    assert!(pop_from_table(&mut txn).is_err());
    assert!(remove_from_table(0, &mut txn).is_err());
    assert_eq!(entries(&txn), rows(&[(0, "a")]));
}

#[test]
fn the_last_index_is_read_from_a_snapshot() {
    let db = database();
    let missing = get_last_index(db.begin_read().unwrap());
    assert!(matches!(missing, Err(AppError::Table(_))));
    let mut txn = db.begin_write().unwrap();
    pop_from_table(&mut txn).unwrap();
    txn.commit().unwrap();
    assert_eq!(get_last_index(db.begin_read().unwrap()).unwrap(), None);
    let mut txn = db.begin_write().unwrap();
    write(&mut txn, "a");
    write(&mut txn, "b");
    txn.commit().unwrap();
    assert_eq!(get_last_index(db.begin_read().unwrap()).unwrap(), Some(1));
}

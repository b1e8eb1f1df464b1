use axum::http::header::AUTHORIZATION;
use axum::http::{HeaderMap, HeaderValue};
use qqh::clock::local_date;
use qqh::config::{Config, ContentRequest, RemoveRequest};
use qqh::error::AppError;
use qqh::journal::store_entry;
use qqh::service::{
    content_page, get_content, home, home_page, location_of, newest, newest_location, page_of, pop,
    pop_local, push, push_local, remove, remove_local,
};
use redb::backends::InMemoryBackend;
use redb::{Database, ReadableDatabase, TableDefinition};

fn config() -> Config {
    Config {
        title: "notes".to_string(),
        url: "example.org".to_string(),
        db_path: "data.redb".to_string(),
        page_content: 3,
        split_length: 5,
        push_password: "secret".to_string(),
    }
}

fn database() -> Database {
    Database::builder()
        .create_with_backend(InMemoryBackend::new())
        .unwrap()
}

fn header(password: &str) -> HeaderMap {
    let mut header = HeaderMap::new();
    let value = HeaderValue::from_str(&format!("Bearer {}", password)).unwrap();
    header.insert(AUTHORIZATION, value);
    header
}

fn request(content: &str) -> ContentRequest {
    ContentRequest {
        content: content.to_string(),
    }
}

fn filled(contents: &[(u64, &str, u64)]) -> Database {
    let db = database();
    let mut txn = db.begin_write().unwrap();
    for (index, content, time) in contents {
        store_entry(*index, content.to_string(), *time, &mut txn).unwrap();
    }
    txn.commit().unwrap();
    db
}

fn lines(db: &Database, page: Option<u64>) -> Vec<(String, String)> {
    home(db, &config(), page).unwrap().contents
}

fn line(content: &str, time: u64) -> (String, String) {
    (content.to_string(), local_date(time).unwrap())
}

#[test]
fn what_is_pushed_is_served() {
    let mut db = database();
    let config = config();
    let reply = push(header("secret"), &mut db, &config, request("今天天气不错"))
        .unwrap()
        .unwrap();
    assert_eq!((reply.code, reply.index), (0, 0));
    let reply = push(header("secret"), &mut db, &config, request("second"))
        .unwrap()
        .unwrap();
    assert_eq!((reply.code, reply.index), (0, 1));
    let page = get_content(&db, &config, 0).unwrap();
    assert_eq!(page.title, "notes");
    assert_eq!(page.content, "今天天气不错");
    assert_eq!(get_content(&db, &config, 1).unwrap().content, "second");
    assert_eq!(newest(&db, &config).unwrap(), "https://example.org/1");
}

#[test]
fn what_is_pushed_locally_is_stored() {
    let mut db = database();
    let config = config();
    assert_eq!(push_local(&mut db, "first".to_string()).unwrap(), Some(0));
    assert_eq!(push_local(&mut db, "second".to_string()).unwrap(), Some(1));
    assert_eq!(get_content(&db, &config, 0).unwrap().content, "first");
    assert_eq!(get_content(&db, &config, 1).unwrap().content, "second");
}

#[test]
fn a_wrong_password_changes_nothing() {
    let mut db = filled(&[(0, "first", 0)]);
    let config = config();
    let refused = push(header("guess"), &mut db, &config, request("second")).unwrap_err();
    assert!(matches!(refused, AppError::Internal(error) if error.0 == "Wrong password!"));
    let refused = pop(header("guess"), &mut db, &config).unwrap_err();
    assert!(matches!(refused, AppError::Internal(error) if error.0 == "Wrong password!"));
    let request = RemoveRequest { index: 0 };
    let refused = remove(HeaderMap::new(), &mut db, &config, request).unwrap_err();
    assert_eq!(refused.0, "Wrong password!");
    assert_eq!(get_content(&db, &config, 0).unwrap().content, "first");
    assert_eq!(newest(&db, &config).unwrap(), "https://example.org/0");
}

#[test]
fn a_wrong_password_is_answered_without_detail() {
    let mut db = database();
    let refused = push(header("guess"), &mut db, &config(), request("a")).unwrap_err();
    let reply = refused.into_response();
    assert_eq!(reply.status, 500);
    assert_eq!(reply.error, "An internal server error occurred");
    let request = RemoveRequest { index: 0 };
    let refused = remove(header("guess"), &mut db, &config(), request).unwrap_err();
    let reply = refused.into_response();
    assert_eq!(reply.status, 500);
    assert_eq!(reply.body, "Wrong password!");
}

#[test]
fn a_popped_entry_is_gone() {
    let mut db = filled(&[(0, "first", 0), (1, "second", 0)]);
    let config = config();
    let reply = pop(header("secret"), &mut db, &config).unwrap();
    assert_eq!(reply.status, 0);
    assert_eq!(reply.record, Some((1, "second".to_string())));
    assert!(matches!(
        get_content(&db, &config, 1),
        Err(AppError::NotFound)
    ));
    assert_eq!(newest(&db, &config).unwrap(), "https://example.org/0");
    let record = pop_local(&mut db).unwrap();
    assert_eq!(record, Some((0, "first".to_string())));
    assert!(matches!(newest(&db, &config), Err(AppError::NotFound)));
    assert_eq!(pop_local(&mut db).unwrap(), None);
    assert_eq!(lines(&db, None), vec![]);
}

#[test]
fn a_removed_entry_is_gone() {
    let mut db = filled(&[(0, "a", 0), (1, "b", 0), (2, "c", 0)]);
    let config = config();
    let reply = remove(header("secret"), &mut db, &config, RemoveRequest { index: 1 }).unwrap();
    assert_eq!((reply.code, reply.index), (0, 1));
    assert!(matches!(
        get_content(&db, &config, 1),
        Err(AppError::NotFound)
    ));
    assert_eq!(lines(&db, None), vec![line("c", 0), line("a", 0)]);
    remove_local(&mut db, 2).unwrap();
    remove_local(&mut db, 2).unwrap();
    assert_eq!(newest(&db, &config).unwrap(), "https://example.org/0");
}

#[test]
fn an_unused_database_has_no_tables() {
    let db = database();
    let config = config();
    assert!(matches!(home(&db, &config, None), Err(AppError::Table(_))));
    assert!(matches!(
        get_content(&db, &config, 0),
        Err(AppError::Table(_))
    ));
    assert!(matches!(newest(&db, &config), Err(AppError::Table(_))));
}

#[test]
fn a_page_shows_its_entries_newest_first() {
    let db = filled(&[
        (0, "a", 10),
        (1, "hello world", 20),
        (2, "c", 1_000_000_000),
        (3, "d", 30),
    ]);
    let shown = home(&db, &config(), None).unwrap();
    assert_eq!(shown.title, "notes");
    assert_eq!(shown.fault, None);
    assert_eq!(
        shown.contents,
        vec![line("c", 1_000_000_000), line("hello..", 20), line("a", 10)]
    );
    assert_eq!(lines(&db, Some(1)), shown.contents);
    assert_eq!(lines(&db, Some(2)), vec![line("d", 30)]);
    assert_eq!(lines(&db, Some(3)), vec![]);
}

#[test]
fn the_pages_together_show_every_entry() {
    let mut db = database();
    for n in 0u64..8 {
        assert_eq!(push_local(&mut db, n.to_string()).unwrap(), Some(n));
    }
    let mut shown = Vec::new();
    for page in 1u64..4 {
        let mut contents = lines(&db, Some(page));
        contents.reverse();
        shown.extend(contents.into_iter().map(|line| line.0));
    }
    let all: Vec<String> = (0u64..8).map(|n| n.to_string()).collect();
    assert_eq!(shown, all);
}

#[test]
fn an_entry_without_a_time_fails_its_page_only() {
    let db = filled(&[(0, "a", 0), (3, "b", 0)]);
    let txn = db.begin_write().unwrap();
    {
        let dates = TableDefinition::<u64, u64>::new("index_date_list");
        txn.open_table(dates).unwrap().remove(0).unwrap();
    }
    txn.commit().unwrap();
    match home(&db, &config(), None) {
        Err(AppError::Internal(error)) => assert_eq!(error.0, "Missing date for index 0"),
        other => panic!("{:?}", other),
    }
    assert_eq!(lines(&db, Some(2)), vec![line("b", 0)]);
}

#[test]
fn an_impossible_time_fails_its_page() {
    let db = filled(&[(0, "a", 253_402_207_201)]);
    match home(&db, &config(), None) {
        Err(AppError::Internal(error)) => {
            assert!(error.0.starts_with("Failed to convert timestemp to date: "))
        }
        other => panic!("{:?}", other),
    }
}

#[test]
fn the_largest_index_leaves_no_room() {
    let mut db = filled(&[(u64::MAX, "last", 0)]);
    let config = config();
    assert_eq!(push_local(&mut db, "more".to_string()).unwrap(), None);
    let none = push(header("secret"), &mut db, &config, request("more")).unwrap();
    assert!(none.is_none());
    assert_eq!(
        newest(&db, &config).unwrap(),
        format!("https://example.org/{}", u64::MAX)
    );
}

#[test]
fn a_snapshot_does_not_change() {
    let mut db = filled(&[(0, "first", 0)]);
    let config = config();
    let read = db.begin_read().unwrap();
    push_local(&mut db, "second".to_string()).unwrap();
    assert_eq!(
        home_page(&read, &config, None).unwrap().contents,
        vec![line("first", 0)]
    );
    assert!(matches!(
        content_page(&read, &config, 1),
        Err(AppError::NotFound)
    ));
    assert_eq!(
        newest_location(read, &config).unwrap(),
        "https://example.org/0"
    );
}

#[test]
fn a_looked_up_entry_becomes_a_page() {
    let page = page_of(Some("text".to_string()), &config()).unwrap();
    assert_eq!(
        (page.title.as_str(), page.content.as_str()),
        ("notes", "text")
    );
    assert!(matches!(page_of(None, &config()), Err(AppError::NotFound)));
}

#[test]
fn entries_have_distinct_addresses() {
    let config = config();
    assert_eq!(
        location_of(Some(0), &config).unwrap(),
        "https://example.org/0"
    );
    assert_eq!(
        location_of(Some(10), &config).unwrap(),
        "https://example.org/10"
    );
    assert_ne!(
        location_of(Some(1), &config).unwrap(),
        location_of(Some(11), &config).unwrap()
    );
    assert!(matches!(
        location_of(None, &config),
        Err(AppError::NotFound)
    ));
}

#[test]
fn a_refused_request_creates_no_tables() {
    let mut db = database();
    let config = config();
    assert!(push(header("guess"), &mut db, &config, request("a")).is_err());
    assert!(pop(header("guess"), &mut db, &config).is_err());
    assert!(remove(header("guess"), &mut db, &config, RemoveRequest { index: 0 }).is_err());
    assert!(matches!(newest(&db, &config), Err(AppError::Table(_))));
}

#[test]
fn a_failed_write_leaves_the_database_alone() {
    let mut db = database();
    let txn = db.begin_write().unwrap();
    {
        let texts = TableDefinition::<u64, String>::new("index_blog_list");
        txn.open_table(texts)
            .unwrap()
            .insert(0, "a".to_string())
            .unwrap();
        let wrong = TableDefinition::<u64, String>::new("index_date_list");
        txn.open_table(wrong).unwrap();
    }
    txn.commit().unwrap();
    let config = config();
    let error = push(header("secret"), &mut db, &config, request("b")).unwrap_err();
    assert!(matches!(error, AppError::Table(_)));
    assert!(pop_local(&mut db).is_err());
    assert!(remove_local(&mut db, 0).is_err());
    assert_eq!(get_content(&db, &config, 0).unwrap().content, "a");
    assert_eq!(newest(&db, &config).unwrap(), "https://example.org/0");
}

#[test]
fn a_pop_hands_back_what_was_pushed() {
    let mut db = filled(&[(0, "first", 0)]);
    let config = config();
    push(header("secret"), &mut db, &config, request("second")).unwrap();
    let reply = pop(header("secret"), &mut db, &config).unwrap();
    assert_eq!(reply.record, Some((1, "second".to_string())));
    assert_eq!(lines(&db, None), vec![line("first", 0)]);
}

#[test]
fn a_removal_leaves_the_other_pages_alone() {
    let mut db = filled(&[(0, "a", 1), (1, "b", 2), (3, "c", 3), (4, "d", 4)]);
    let second = lines(&db, Some(2));
    remove_local(&mut db, 1).unwrap();
    assert_eq!(lines(&db, Some(1)), vec![line("a", 1)]);
    assert_eq!(lines(&db, Some(2)), second);
}

#[test]
fn a_full_range_gives_a_full_page() {
    let db = filled(&[(0, "a", 0), (1, "b", 0), (2, "c", 0), (4, "d", 0)]);
    assert_eq!(lines(&db, Some(1)).len(), 3);
    assert_eq!(lines(&db, Some(2)).len(), 1);
}

fn is_missing(error: AppError, table: &str) -> bool {
    let expected = format!("Table '{}' does not exist", table);
    matches!(error, AppError::Table(text) if text == expected)
}

#[test]
fn a_missing_table_is_named() {
    let db = database();
    let config = config();
    let error = get_content(&db, &config, 0).unwrap_err();
    assert!(is_missing(error, "index_blog_list"));
    let error = home(&db, &config, Some(1)).unwrap_err();
    assert!(is_missing(error, "index_blog_list"));
    let error = newest(&db, &config).unwrap_err();
    assert!(is_missing(error, "index_blog_list"));
}

#[test]
fn a_missing_table_of_times_fails_the_home_page_only() {
    let db = database();
    let txn = db.begin_write().unwrap();
    {
        let texts = TableDefinition::<u64, String>::new("index_blog_list");
        let mut table = txn.open_table(texts).unwrap();
        table.insert(0, "a".to_string()).unwrap();
    }
    txn.commit().unwrap();
    let error = home(&db, &config(), None).unwrap_err();
    assert!(is_missing(error, "index_date_list"));
    assert_eq!(get_content(&db, &config(), 0).unwrap().content, "a");
}

#[test]
fn a_table_of_another_type_is_refused() {
    let db = database();
    let txn = db.begin_write().unwrap();
    {
        let wrong = TableDefinition::<u64, u64>::new("index_blog_list");
        txn.open_table(wrong).unwrap();
    }
    txn.commit().unwrap();
    let error = get_content(&db, &config(), 0).unwrap_err();
    assert!(matches!(error, AppError::Table(text) if text.contains("is of type")));
}

#[test]
fn a_first_removal_creates_the_tables() {
    let mut db = database();
    let config = config();
    remove_local(&mut db, 7).unwrap();
    assert!(matches!(newest(&db, &config), Err(AppError::NotFound)));
    assert_eq!(lines(&db, None), vec![]);
}

#[test]
fn previews_on_the_home_page_keep_their_length() {
    let db = filled(&[(0, "one two three four", 0), (1, "abcdefghij", 0)]);
    for line in lines(&db, None) {
        assert!(line.0.chars().count() <= 5 + 2);
        assert!(line.0.ends_with(".."));
    }
}

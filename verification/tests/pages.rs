use qqh::error::AppError;
use qqh::page::{entry_line, has_page, page_range, preview, preview_of};
use qqh::text::{decimal_text, join};

#[test]
fn the_first_page_is_the_default() {
    assert_eq!(page_range(None, 10), (0, 10));
    assert_eq!(page_range(Some(1), 10), (0, 10));
}

#[test]
fn later_pages_follow_without_a_gap() {
    assert_eq!(page_range(Some(2), 10), (10, 20));
    assert_eq!(page_range(Some(3), 10), (20, 30));
    assert_eq!(page_range(Some(5), 0), (0, 0));
    assert_eq!(page_range(Some(u64::MAX), 1), (u64::MAX - 1, u64::MAX));
}

#[test]
fn each_index_is_on_one_page() {
    for index in 0u64..25 {
        let on: Vec<u64> = (1u64..10)
            .filter(|&page| {
                let (start, end) = page_range(Some(page), 7);
                start <= index && index < end
            })
            .collect();
        assert_eq!(on, vec![index / 7 + 1]);
    }
}

#[test]
fn pages_that_run_over_do_not_exist() {
    assert!(has_page(None, 10));
    assert!(has_page(Some(1), u64::MAX));
    assert!(has_page(Some(u64::MAX), 1));
    assert!(has_page(Some(u64::MAX), 0));
    assert!(!has_page(Some(0), 10));
    assert!(!has_page(Some(2), u64::MAX));
    assert!(!has_page(Some(u64::MAX), 2));
}

#[test]
fn a_short_entry_is_shown_whole() {
    assert_eq!(preview("hello", 100), "hello");
    assert_eq!(preview("今天天气不错", 100), "今天天气不错");
    assert_eq!(preview("", 100), "");
    assert_eq!(preview("hello", 5), "hello");
}

#[test]
fn a_long_entry_is_cut_with_two_dots() {
    assert_eq!(preview("hello world", 5), "hello..");
    assert_eq!(preview("今天天气不错", 2).chars().count(), 4);
    assert_eq!(preview("abcdef", 1), "a..");
}

#[test]
fn a_preview_is_never_much_longer_than_asked() {
    let text = "one two three four five six seven eight nine ten";
    for length in 1u64..60 {
        assert!(preview(text, length).chars().count() as u64 <= length + 2);
    }
}

#[test]
fn previews_follow_from_the_chunks() {
    assert_eq!(preview_of(&vec![]), "");
    assert_eq!(preview_of(&vec!["a".to_string()]), "a");
    assert_eq!(preview_of(&vec!["a".to_string(), "b".to_string()]), "a..");
}

#[test]
fn an_entry_with_a_time_has_a_line() {
    let line = entry_line(3, "hello world", Some(0), 5).unwrap();
    assert_eq!(line.0, "hello..");
    assert_eq!(line.1, qqh::clock::local_date(0).unwrap());
}

#[test]
fn an_entry_without_a_time_is_an_error() {
    match entry_line(42, "hello", None, 5) {
        Err(AppError::Internal(error)) => assert_eq!(error.0, "Missing date for index 42"),
        other => panic!("{:?}", other),
    }
}

#[test]
fn an_entry_with_an_impossible_time_is_an_error() {
    match entry_line(42, "hello", Some(253_402_207_201), 5) {
        Err(AppError::Internal(error)) => {
            assert!(error.0.starts_with("Failed to convert timestemp to date: "))
        }
        other => panic!("{:?}", other),
    }
}

#[test]
fn numbers_are_written_in_decimal() {
    for n in [0u64, 7, 10, 99, 100, 12_345, 1_000_000_007, u64::MAX] {
        assert_eq!(decimal_text(n), n.to_string());
    }
}

#[test]
fn texts_are_joined() {
    assert_eq!(join("今天", " ok"), "今天 ok");
    assert_eq!(join("", ""), "");
}

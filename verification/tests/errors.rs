use qqh::error::{AnyhowError, AppError, DatabaseFault};
use qqh::store::{OpenFault, TableFault};

fn text(s: &str) -> String {
    s.to_string()
}

fn answer(error: AppError) -> (u16, String) {
    let reply = error.into_response();
    (reply.status, reply.error)
}

const HIDDEN: &str = "An internal server error occurred";

#[test]
fn unauthorized_is_answered_with_its_own_message() {
    assert_eq!(
        answer(AppError::Unauthorized),
        (401, text("Authentication failed: Invalid Bearer token"))
    );
}

#[test]
fn not_found_is_answered_with_its_own_message() {
    assert_eq!(
        answer(AppError::NotFound),
        (404, text("Resource not found"))
    );
}

#[test]
fn an_open_database_is_answered_as_locked() {
    assert_eq!(
        answer(AppError::Database(DatabaseFault::AlreadyOpen)),
        (
            423,
            text("Database integrity error: Database already open. Cannot acquire lock.")
        )
    );
}

#[test]
fn the_words_for_an_open_database_are_those_of_redb() {
    assert_eq!(
        DatabaseFault::AlreadyOpen.message(),
        redb::DatabaseError::DatabaseAlreadyOpen.to_string()
    );
    assert_eq!(DatabaseFault::Other(text("broken")).message(), "broken");
}

#[test]
fn every_other_error_is_hidden() {
    let errors = vec![
        AppError::DatabaseLocked,
        AppError::Database(DatabaseFault::Other(text("broken"))),
        AppError::Table(text("t")),
        AppError::Transaction(text("t")),
        AppError::Network(text("t")),
        AppError::Io(text("t")),
        AppError::Template(text("t")),
        AppError::Internal(AnyhowError(text("Wrong password!"))),
        AppError::Storage(text("t")),
        AppError::Commit(text("t")),
    ];
    for error in errors {
        assert_eq!(answer(error), (500, text(HIDDEN)));
    }
}

#[test]
fn messages_name_the_kind_of_error() {
    let cases = vec![
        (
            AppError::DatabaseLocked,
            "Database is currently locked by another process",
        ),
        (
            AppError::Database(DatabaseFault::Other(text("x"))),
            "Database integrity error: x",
        ),
        (AppError::Table(text("x")), "Table error: x"),
        (
            AppError::Transaction(text("x")),
            "Storage transaction failed: x",
        ),
        (AppError::Network(text("x")), "Network request failed: x"),
        (AppError::Io(text("x")), "Configuration or IO failure: x"),
        (
            AppError::Template(text("x")),
            "Template rendering failed: x",
        ),
        (
            AppError::Internal(AnyhowError(text("x"))),
            "Internal system error: x",
        ),
        (AppError::Storage(text("x")), "Storage error: x"),
        (AppError::Commit(text("x")), "Commit error: x"),
    ];
    for (error, expected) in cases {
        assert_eq!(error.message(), expected);
    }
}

#[test]
fn errors_of_redb_keep_their_words() {
    let table = redb::TableError::TableDoesNotExist(text("x"));
    let shown = table.to_string();
    assert!(matches!(AppError::from_table(table), AppError::Table(t) if t == shown));

    let storage = redb::StorageError::PreviousIo;
    let shown = storage.to_string();
    assert!(matches!(AppError::from_storage(storage), AppError::Storage(t) if t == shown));

    let transaction = redb::TransactionError::Storage(redb::StorageError::PreviousIo);
    let shown = transaction.to_string();
    assert!(
        matches!(AppError::from_transaction(transaction), AppError::Transaction(t) if t == shown)
    );

    let commit = redb::CommitError::Storage(redb::StorageError::PreviousIo);
    let shown = commit.to_string();
    assert!(matches!(AppError::from_commit(commit), AppError::Commit(t) if t == shown));
}

#[test]
fn a_plain_error_is_answered_with_its_words() {
    let error = AnyhowError::from(redb::StorageError::PreviousIo);
    let shown = redb::StorageError::PreviousIo.to_string();
    let reply = error.into_response();
    assert_eq!(reply.status, 500);
    assert_eq!(reply.body, shown);
}

#[test]
fn faults_of_tables_keep_their_words() {
    let refused = || TableFault::Refused(redb::TableError::TableDoesNotExist(text("x")));
    let shown = "Table 'x' does not exist";
    assert!(matches!(AppError::from_fault(refused()), AppError::Table(t) if t == shown));
    assert_eq!(AnyhowError::from_fault(refused()).0, shown);

    let opening = || TableFault::Opening(redb::StorageError::PreviousIo);
    let shown = redb::TableError::Storage(redb::StorageError::PreviousIo).to_string();
    assert!(matches!(AppError::from_fault(opening()), AppError::Table(t) if t == shown));
    assert_eq!(AnyhowError::from_fault(opening()).0, shown);

    let storage = || TableFault::Storage(redb::StorageError::PreviousIo);
    assert!(matches!(AppError::from_fault(storage()), AppError::Storage(t) if t == shown));
    assert_eq!(AnyhowError::from_fault(storage()).0, shown);
}

#[test]
fn faults_of_opening_keep_their_words() {
    let missing = OpenFault::Missing(redb::TableError::TableDoesNotExist(text("x")));
    let shown = "Table 'x' does not exist";
    assert!(matches!(AppError::from_open_fault(missing), AppError::Table(t) if t == shown));

    let refused = OpenFault::Refused(redb::TableError::TableIsMultimap(text("x")));
    let shown = "x is a multimap table";
    assert!(matches!(AppError::from_open_fault(refused), AppError::Table(t) if t == shown));

    let storage = OpenFault::Storage(redb::StorageError::PreviousIo);
    let shown = redb::StorageError::PreviousIo.to_string();
    assert!(matches!(AppError::from_open_fault(storage), AppError::Table(t) if t == shown));
}

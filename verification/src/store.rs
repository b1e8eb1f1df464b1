//! The database: what the `redb` calls do, stated over maps from keys to values.
//!
//! The functions of this file are not proved. Each makes one step of `redb` and says what that
//! step does; everything else in the crate is verified against these statements.

use vstd::prelude::*;
use vstd::string::to_string_from_display_ensures;

verus! {

/// An open database.
#[verifier::external_type_specification]
#[verifier::external_body]
pub struct ExDatabase(redb::Database);

/// A transaction that reads and writes.
#[verifier::external_type_specification]
#[verifier::external_body]
pub struct ExWriteTransaction(redb::WriteTransaction);

/// A transaction that reads one snapshot of the database.
#[verifier::external_type_specification]
#[verifier::external_body]
pub struct ExReadTransaction(redb::ReadTransaction);

/// The error of opening a table.
#[verifier::external_type_specification]
#[verifier::external_body]
pub struct ExTableError(redb::TableError);

/// The error of reading or writing.
#[verifier::external_type_specification]
#[verifier::external_body]
pub struct ExStorageError(redb::StorageError);

/// The error of beginning a transaction.
#[verifier::external_type_specification]
#[verifier::external_body]
pub struct ExTransactionError(redb::TransactionError);

/// The error of committing.
#[verifier::external_type_specification]
#[verifier::external_body]
pub struct ExCommitError(redb::CommitError);

/// A `redb::ReadOnlyTable` from numbers to texts.
#[verifier::external_body]
pub struct TextTable {
    table: redb::ReadOnlyTable<u64, String>,
}

/// A `redb::ReadOnlyTable` from numbers to numbers.
#[verifier::external_body]
pub struct NumberTable {
    table: redb::ReadOnlyTable<u64, u64>,
}

/// A `redb::Range`: the rows of a table of texts that are still to be read.
#[verifier::external_body]
pub struct TextRange {
    range: redb::Range<'static, u64, String>,
}

/// Why a table could not be opened for reading.
pub enum OpenFault {
    /// There is no table of that name.
    Missing(redb::TableError),
    /// The table of that name is of another type.
    Refused(redb::TableError),
    /// The storage failed.
    Storage(redb::StorageError),
}

/// What went wrong while a table was opened and written.
pub enum TableFault {
    /// The table of that name is of another type, or is open already.
    Refused(redb::TableError),
    /// The storage failed while the table was opened.
    Opening(redb::StorageError),
    /// The storage failed while the opened table was read or written.
    Storage(redb::StorageError),
}

/// The tables of a database: the names of all of them, and by name the rows of those from `u64`
/// to `String` and from `u64` to `u64`.
#[verifier::ext_equal]
pub struct Tables {
    pub names: Set<Seq<char>>,
    pub texts: Map<Seq<char>, Map<u64, Seq<char>>>,
    pub numbers: Map<Seq<char>, Map<u64, u64>>,
}

/// The names of the tables that were committed to a database last.
pub uninterp spec fn committed_names(db: redb::Database) -> Set<Seq<char>>;

/// The tables from `u64` to `String` that were committed to a database last.
pub uninterp spec fn committed_texts(db: redb::Database) -> Map<Seq<char>, Map<u64, Seq<char>>>;

/// The tables from `u64` to `u64` that were committed to a database last.
pub uninterp spec fn committed_numbers(db: redb::Database) -> Map<Seq<char>, Map<u64, u64>>;

/// Which database this is.
pub uninterp spec fn identity(db: redb::Database) -> int;

/// The database to which a write transaction belongs.
pub uninterp spec fn database_of(txn: redb::WriteTransaction) -> int;

/// The tables that are open in a write transaction.
pub uninterp spec fn open_tables(txn: redb::WriteTransaction) -> Set<Seq<char>>;

/// The names of the tables that a write transaction holds.
pub uninterp spec fn pending_names(txn: redb::WriteTransaction) -> Set<Seq<char>>;

/// The tables from `u64` to `String` that a write transaction holds, by name, with the rows
/// of each as the transaction sees them.
pub uninterp spec fn pending_texts(txn: redb::WriteTransaction) -> Map<
    Seq<char>,
    Map<u64, Seq<char>>,
>;

/// The tables from `u64` to `u64` that a write transaction holds, by name, with the rows
/// of each as the transaction sees them.
pub uninterp spec fn pending_numbers(txn: redb::WriteTransaction) -> Map<Seq<char>, Map<u64, u64>>;

/// The names of the tables in the snapshot of a read transaction.
pub uninterp spec fn snapshot_names(read: redb::ReadTransaction) -> Set<Seq<char>>;

/// The tables from `u64` to `String` in the snapshot of a read transaction, by name.
pub uninterp spec fn snapshot_texts(read: redb::ReadTransaction) -> Map<
    Seq<char>,
    Map<u64, Seq<char>>,
>;

/// The tables from `u64` to `u64` in the snapshot of a read transaction, by name.
pub uninterp spec fn snapshot_numbers(read: redb::ReadTransaction) -> Map<
    Seq<char>,
    Map<u64, u64>,
>;

/// The rows of a table of texts.
pub uninterp spec fn text_rows(table: TextTable) -> Map<u64, Seq<char>>;

/// The rows of a table of numbers.
pub uninterp spec fn number_rows(table: NumberTable) -> Map<u64, u64>;

/// The rows that a range has still to give, in the order in which it gives them.
pub uninterp spec fn remaining_rows(range: TextRange) -> Seq<(u64, Seq<char>)>;

/// What a database holds.
pub open spec fn committed(db: redb::Database) -> Tables {
    Tables {
        names: committed_names(db),
        texts: committed_texts(db),
        numbers: committed_numbers(db),
    }
}

/// What a write transaction holds.
pub open spec fn pending(txn: redb::WriteTransaction) -> Tables {
    Tables {
        names: pending_names(txn),
        texts: pending_texts(txn),
        numbers: pending_numbers(txn),
    }
}

/// What the snapshot of a read transaction holds.
pub open spec fn snapshot(read: redb::ReadTransaction) -> Tables {
    Tables {
        names: snapshot_names(read),
        texts: snapshot_texts(read),
        numbers: snapshot_numbers(read),
    }
}

/// What is displayed for a table that does not exist.
pub open spec fn missing_text(name: Seq<char>) -> Seq<char> {
    "Table '"@ + name + "' does not exist"@
}

/// The error displays that the table `name` does not exist.
pub open spec fn displays_missing(error: redb::TableError, name: Seq<char>) -> bool {
    forall|text: String| #[trigger]
        to_string_from_display_ensures(&error, text) ==> text@ == missing_text(name)
}

/// Both are the same transaction, with the same tables open.
pub open spec fn same_session(
    before: redb::WriteTransaction,
    after: redb::WriteTransaction,
) -> bool {
    &&& database_of(after) == database_of(before)
    &&& open_tables(after) == open_tables(before)
}

/// The rows of the table `name`; a table that does not exist has none.
pub open spec fn rows_of<V>(tables: Map<Seq<char>, Map<u64, V>>, name: Seq<char>) -> Map<u64, V> {
    if tables.contains_key(name) {
        tables[name]
    } else {
        Map::empty()
    }
}

/// `key` is the largest key of `rows`.
pub open spec fn is_last_key<V>(rows: Map<u64, V>, key: u64) -> bool {
    &&& rows.contains_key(key)
    &&& forall|k: u64| rows.contains_key(k) ==> k <= key
}

/// The largest key of `rows`, if there is one.
pub open spec fn last_key<V>(rows: Map<u64, V>) -> Option<u64> {
    if exists|k: u64| is_last_key(rows, k) {
        Some(choose|k: u64| is_last_key(rows, k))
    } else {
        None
    }
}

/// Rows that are not empty have a largest key, since keys are bounded.
pub proof fn lemma_last_key<V>(rows: Map<u64, V>)
    ensures
        match last_key(rows) {
            Some(key) => is_last_key(rows, key),
            None => rows == Map::<u64, V>::empty(),
        },
{
    if last_key(rows) is None {
        assert forall|k: u64| !rows.contains_key(k) by {
            if rows.contains_key(k) {
                lemma_key_above(rows, k);
            }
        }
        assert(rows =~= Map::<u64, V>::empty());
    }
}

/// From any key of `rows` upwards there is a largest one.
proof fn lemma_key_above<V>(rows: Map<u64, V>, key: u64)
    requires
        rows.contains_key(key),
    ensures
        exists|k: u64| is_last_key(rows, k),
    decreases u64::MAX - key,
{
    if !is_last_key(rows, key) {
        let higher = choose|k: u64| rows.contains_key(k) && k > key;
        lemma_key_above(rows, higher);
    }
}

/// `rows` without its largest key.
pub open spec fn without_last<V>(rows: Map<u64, V>) -> Map<u64, V> {
    match last_key(rows) {
        Some(k) => rows.remove(k),
        None => rows,
    }
}

/// `listing` holds the rows whose key lies in `start..end`, each once, by ascending key.
pub open spec fn is_listing<V>(
    rows: Map<u64, V>,
    start: int,
    end: int,
    listing: Seq<(u64, V)>,
) -> bool {
    &&& forall|i: int, j: int| 0 <= i < j < listing.len() ==> listing[i].0 < listing[j].0
    &&& forall|i: int|
        0 <= i < listing.len() ==> start <= (#[trigger] listing[i]).0 < end
            && rows.contains_key(listing[i].0) && rows[listing[i].0] == listing[i].1
    &&& forall|k: u64|
        #[trigger] rows.contains_key(k) && start <= k < end ==> exists|i: int|
            0 <= i < listing.len() && (#[trigger] listing[i]).0 == k
}

/// Calls `Database::begin_write`: the transaction belongs to the database, finds in it what was
/// committed last, and has no table open. Whether it can begin is for the storage to say. The
/// call waits for a write transaction that is under way.
#[verifier::external_body]
pub(crate) fn begin_write(db: &redb::Database) -> (result: Result<
    redb::WriteTransaction,
    redb::TransactionError,
>)
    ensures
        result matches Ok(txn) ==> {
            &&& pending_names(txn) == committed_names(*db)
            &&& pending_texts(txn) == committed_texts(*db)
            &&& pending_numbers(txn) == committed_numbers(*db)
            &&& database_of(txn) == identity(*db)
            &&& open_tables(txn) == Set::<Seq<char>>::empty()
        },
{
    db.begin_write()
}

/// Calls `Database::begin_read`: the snapshot is what was committed last. Whether it can be
/// taken is for the storage to say.
#[verifier::external_body]
pub(crate) fn begin_read(db: &redb::Database) -> (result: Result<
    redb::ReadTransaction,
    redb::TransactionError,
>)
    ensures
        result matches Ok(read) ==> {
            &&& snapshot_names(read) == committed_names(*db)
            &&& snapshot_texts(read) == committed_texts(*db)
            &&& snapshot_numbers(read) == committed_numbers(*db)
        },
{
    redb::ReadableDatabase::begin_read(db)
}

/// Calls `WriteTransaction::commit`: what the transaction holds is then what was committed to
/// its database last. Whether the disk takes it is not known beforehand, and after a failure
/// nothing is said of the database.
///
/// The database is borrowed exclusively, since a commit changes what others find in it. A commit
/// that is made by other means while the database is borrowed is not accounted for.
#[verifier::external_body]
pub(crate) fn commit(db: &mut redb::Database, txn: redb::WriteTransaction) -> (result: Result<
    (),
    redb::CommitError,
>)
    requires
        database_of(txn) == identity(*old(db)),
    ensures
        result is Ok ==> {
            &&& committed_names(*final(db)) == pending_names(txn)
            &&& committed_texts(*final(db)) == pending_texts(txn)
            &&& committed_numbers(*final(db)) == pending_numbers(txn)
        },
{
    txn.commit()
}

/// Calls `WriteTransaction::open_table` for a table of texts, which creates it if it is missing:
/// the transaction then has a table of that name, with the rows that it had before. A table of
/// that name is refused only if it is of another type or open already. After a failure nothing is
/// said of what the transaction holds. The same goes for opening a table in the functions below.
#[verifier::external_body]
pub(crate) fn create_texts(txn: &mut redb::WriteTransaction, name: &str) -> (result: Result<
    (),
    TableFault,
>)
    requires
        name@.len() > 0,
    ensures
        same_session(*old(txn), *final(txn)),
        result matches Err(TableFault::Refused(_)) ==> {
            ||| pending_names(*old(txn)).contains(name@)
                && !pending_texts(*old(txn)).contains_key(name@)
            ||| open_tables(*old(txn)).contains(name@)
        },
        result is Ok ==> {
            let rows = rows_of(pending_texts(*old(txn)), name@);
            &&& pending_names(*final(txn)) == pending_names(*old(txn)).insert(name@)
            &&& pending_texts(*final(txn)) == pending_texts(*old(txn)).insert(name@, rows)
            &&& pending_numbers(*final(txn)) == pending_numbers(*old(txn))
        },
{
    match txn.open_table(redb::TableDefinition::<u64, String>::new(name)) {
        Ok(_) => Ok(()),
        Err(redb::TableError::Storage(error)) => Err(TableFault::Opening(error)),
        Err(error) => Err(TableFault::Refused(error)),
    }
}

/// Calls `WriteTransaction::open_table` for a table of numbers, which creates it if it is
/// missing: the transaction then has a table of that name, with the rows that it had before.
#[verifier::external_body]
pub(crate) fn create_numbers(txn: &mut redb::WriteTransaction, name: &str) -> (result: Result<
    (),
    TableFault,
>)
    requires
        name@.len() > 0,
    ensures
        same_session(*old(txn), *final(txn)),
        result matches Err(TableFault::Refused(_)) ==> {
            ||| pending_names(*old(txn)).contains(name@)
                && !pending_numbers(*old(txn)).contains_key(name@)
            ||| open_tables(*old(txn)).contains(name@)
        },
        result is Ok ==> {
            let rows = rows_of(pending_numbers(*old(txn)), name@);
            &&& pending_names(*final(txn)) == pending_names(*old(txn)).insert(name@)
            &&& pending_numbers(*final(txn)) == pending_numbers(*old(txn)).insert(name@, rows)
            &&& pending_texts(*final(txn)) == pending_texts(*old(txn))
        },
{
    match txn.open_table(redb::TableDefinition::<u64, u64>::new(name)) {
        Ok(_) => Ok(()),
        Err(redb::TableError::Storage(error)) => Err(TableFault::Opening(error)),
        Err(error) => Err(TableFault::Refused(error)),
    }
}

/// Calls `Table::last` on the table `name`, which opening creates if it is missing: the answer
/// is the largest key, if the table has rows.
#[verifier::external_body]
pub(crate) fn last_text(txn: &mut redb::WriteTransaction, name: &str) -> (result: Result<
    Option<u64>,
    TableFault,
>)
    requires
        name@.len() > 0,
    ensures
        same_session(*old(txn), *final(txn)),
        result matches Err(TableFault::Refused(_)) ==> {
            ||| pending_names(*old(txn)).contains(name@)
                && !pending_texts(*old(txn)).contains_key(name@)
            ||| open_tables(*old(txn)).contains(name@)
        },
        result matches Ok(last) ==> {
            let rows = rows_of(pending_texts(*old(txn)), name@);
            &&& pending_names(*final(txn)) == pending_names(*old(txn)).insert(name@)
            &&& last == last_key(rows)
            &&& pending_texts(*final(txn)) == pending_texts(*old(txn)).insert(name@, rows)
            &&& pending_numbers(*final(txn)) == pending_numbers(*old(txn))
        },
{
    let table = match txn.open_table(redb::TableDefinition::<u64, String>::new(name)) {
        Ok(table) => table,
        Err(redb::TableError::Storage(error)) => return Err(TableFault::Opening(error)),
        Err(error) => return Err(TableFault::Refused(error)),
    };
    let last = redb::ReadableTable::last(&table).map_err(TableFault::Storage)?;
    Ok(last.map(|row| row.0.value()))
}

/// Calls `Table::insert` on the table `name` of texts, which opening creates if it is missing:
/// the key then has the value, whatever it had before, and no other row changes.
#[verifier::external_body]
pub(crate) fn insert_text(
    txn: &mut redb::WriteTransaction,
    name: &str,
    key: u64,
    value: String,
) -> (result: Result<(), TableFault>)
    requires
        name@.len() > 0,
    ensures
        same_session(*old(txn), *final(txn)),
        result matches Err(TableFault::Refused(_)) ==> {
            ||| pending_names(*old(txn)).contains(name@)
                && !pending_texts(*old(txn)).contains_key(name@)
            ||| open_tables(*old(txn)).contains(name@)
        },
        result is Ok ==> {
            let rows = rows_of(pending_texts(*old(txn)), name@);
            &&& pending_names(*final(txn)) == pending_names(*old(txn)).insert(name@)
            &&& pending_texts(*final(txn)) == pending_texts(*old(txn)).insert(
                name@,
                rows.insert(key, value@),
            )
            &&& pending_numbers(*final(txn)) == pending_numbers(*old(txn))
        },
{
    let mut table = match txn.open_table(redb::TableDefinition::<u64, String>::new(name)) {
        Ok(table) => table,
        Err(redb::TableError::Storage(error)) => return Err(TableFault::Opening(error)),
        Err(error) => return Err(TableFault::Refused(error)),
    };
    table.insert(key, value).map_err(TableFault::Storage)?;
    Ok(())
}

/// Calls `Table::insert` on the table `name` of numbers, which opening creates if it is
/// missing: the key then has the value, whatever it had before, and no other row changes.
#[verifier::external_body]
pub(crate) fn insert_number(
    txn: &mut redb::WriteTransaction,
    name: &str,
    key: u64,
    value: u64,
) -> (result: Result<(), TableFault>)
    requires
        name@.len() > 0,
    ensures
        same_session(*old(txn), *final(txn)),
        result matches Err(TableFault::Refused(_)) ==> {
            ||| pending_names(*old(txn)).contains(name@)
                && !pending_numbers(*old(txn)).contains_key(name@)
            ||| open_tables(*old(txn)).contains(name@)
        },
        result is Ok ==> {
            let rows = rows_of(pending_numbers(*old(txn)), name@);
            &&& pending_names(*final(txn)) == pending_names(*old(txn)).insert(name@)
            &&& pending_numbers(*final(txn)) == pending_numbers(*old(txn)).insert(
                name@,
                rows.insert(key, value),
            )
            &&& pending_texts(*final(txn)) == pending_texts(*old(txn))
        },
{
    let mut table = match txn.open_table(redb::TableDefinition::<u64, u64>::new(name)) {
        Ok(table) => table,
        Err(redb::TableError::Storage(error)) => return Err(TableFault::Opening(error)),
        Err(error) => return Err(TableFault::Refused(error)),
    };
    table.insert(key, value).map_err(TableFault::Storage)?;
    Ok(())
}

/// Calls `Table::remove` on the table `name` of texts, which opening creates if it is missing:
/// the key has no row any more, and no other row changes.
#[verifier::external_body]
pub(crate) fn remove_text(txn: &mut redb::WriteTransaction, name: &str, key: u64) -> (result:
    Result<(), TableFault>)
    requires
        name@.len() > 0,
    ensures
        same_session(*old(txn), *final(txn)),
        result matches Err(TableFault::Refused(_)) ==> {
            ||| pending_names(*old(txn)).contains(name@)
                && !pending_texts(*old(txn)).contains_key(name@)
            ||| open_tables(*old(txn)).contains(name@)
        },
        result is Ok ==> {
            let rows = rows_of(pending_texts(*old(txn)), name@);
            &&& pending_names(*final(txn)) == pending_names(*old(txn)).insert(name@)
            &&& pending_texts(*final(txn)) == pending_texts(*old(txn)).insert(
                name@,
                rows.remove(key),
            )
            &&& pending_numbers(*final(txn)) == pending_numbers(*old(txn))
        },
{
    let mut table = match txn.open_table(redb::TableDefinition::<u64, String>::new(name)) {
        Ok(table) => table,
        Err(redb::TableError::Storage(error)) => return Err(TableFault::Opening(error)),
        Err(error) => return Err(TableFault::Refused(error)),
    };
    table.remove(key).map_err(TableFault::Storage)?;
    Ok(())
}

/// Calls `Table::remove` on the table `name` of numbers, which opening creates if it is
/// missing: the key has no row any more, and no other row changes.
#[verifier::external_body]
pub(crate) fn remove_number(txn: &mut redb::WriteTransaction, name: &str, key: u64) -> (result:
    Result<(), TableFault>)
    requires
        name@.len() > 0,
    ensures
        same_session(*old(txn), *final(txn)),
        result matches Err(TableFault::Refused(_)) ==> {
            ||| pending_names(*old(txn)).contains(name@)
                && !pending_numbers(*old(txn)).contains_key(name@)
            ||| open_tables(*old(txn)).contains(name@)
        },
        result is Ok ==> {
            let rows = rows_of(pending_numbers(*old(txn)), name@);
            &&& pending_names(*final(txn)) == pending_names(*old(txn)).insert(name@)
            &&& pending_numbers(*final(txn)) == pending_numbers(*old(txn)).insert(
                name@,
                rows.remove(key),
            )
            &&& pending_texts(*final(txn)) == pending_texts(*old(txn))
        },
{
    let mut table = match txn.open_table(redb::TableDefinition::<u64, u64>::new(name)) {
        Ok(table) => table,
        Err(redb::TableError::Storage(error)) => return Err(TableFault::Opening(error)),
        Err(error) => return Err(TableFault::Refused(error)),
    };
    table.remove(key).map_err(TableFault::Storage)?;
    Ok(())
}

/// Calls `Table::pop_last` on the table `name` of texts, which opening creates if it is
/// missing: the row with the largest key goes, if there is one, and is the answer; no other row
/// changes.
#[verifier::external_body]
pub(crate) fn pop_last_text(txn: &mut redb::WriteTransaction, name: &str) -> (result: Result<
    Option<(u64, String)>,
    TableFault,
>)
    requires
        name@.len() > 0,
    ensures
        same_session(*old(txn), *final(txn)),
        result matches Err(TableFault::Refused(_)) ==> {
            ||| pending_names(*old(txn)).contains(name@)
                && !pending_texts(*old(txn)).contains_key(name@)
            ||| open_tables(*old(txn)).contains(name@)
        },
        result matches Ok(popped) ==> {
            let rows = rows_of(pending_texts(*old(txn)), name@);
            &&& pending_names(*final(txn)) == pending_names(*old(txn)).insert(name@)
            &&& match popped {
                Some(row) => last_key(rows) == Some(row.0) && row.1@ == rows[row.0],
                None => last_key(rows) is None,
            }
            &&& pending_texts(*final(txn)) == pending_texts(*old(txn)).insert(
                name@,
                without_last(rows),
            )
            &&& pending_numbers(*final(txn)) == pending_numbers(*old(txn))
        },
{
    let mut table = match txn.open_table(redb::TableDefinition::<u64, String>::new(name)) {
        Ok(table) => table,
        Err(redb::TableError::Storage(error)) => return Err(TableFault::Opening(error)),
        Err(error) => return Err(TableFault::Refused(error)),
    };
    let popped = table.pop_last().map_err(TableFault::Storage)?;
    Ok(popped.map(|row| (row.0.value(), row.1.value())))
}

/// Calls `Table::pop_last` on the table `name` of numbers, which opening creates if it is
/// missing: the row with the largest key goes, if there is one, and no other row changes.
#[verifier::external_body]
pub(crate) fn pop_last_number(txn: &mut redb::WriteTransaction, name: &str) -> (result: Result<
    (),
    TableFault,
>)
    requires
        name@.len() > 0,
    ensures
        same_session(*old(txn), *final(txn)),
        result matches Err(TableFault::Refused(_)) ==> {
            ||| pending_names(*old(txn)).contains(name@)
                && !pending_numbers(*old(txn)).contains_key(name@)
            ||| open_tables(*old(txn)).contains(name@)
        },
        result is Ok ==> {
            let rows = rows_of(pending_numbers(*old(txn)), name@);
            &&& pending_names(*final(txn)) == pending_names(*old(txn)).insert(name@)
            &&& pending_numbers(*final(txn)) == pending_numbers(*old(txn)).insert(
                name@,
                without_last(rows),
            )
            &&& pending_texts(*final(txn)) == pending_texts(*old(txn))
        },
{
    let mut table = match txn.open_table(redb::TableDefinition::<u64, u64>::new(name)) {
        Ok(table) => table,
        Err(redb::TableError::Storage(error)) => return Err(TableFault::Opening(error)),
        Err(error) => return Err(TableFault::Refused(error)),
    };
    table.pop_last().map_err(TableFault::Storage)?;
    Ok(())
}

/// Calls `ReadTransaction::open_table` for a table of texts: it opens only a table that the
/// snapshot has, and the opened table has the rows that the snapshot has under that name. Only a
/// name that no table has is missing, which the error says with the name; only a table of another
/// type is refused.
#[verifier::external_body]
pub(crate) fn open_texts(read: &redb::ReadTransaction, name: &str) -> (result: Result<
    TextTable,
    OpenFault,
>)
    requires
        name@.len() > 0,
    ensures
        result matches Err(OpenFault::Missing(error)) ==> !snapshot_names(*read).contains(name@)
            && displays_missing(error, name@),
        result matches Err(OpenFault::Refused(_)) ==> snapshot_names(*read).contains(name@)
            && !snapshot_texts(*read).contains_key(name@),
        result matches Ok(table) ==> {
            &&& snapshot_names(*read).contains(name@)
            &&& snapshot_texts(*read).contains_key(name@)
            &&& text_rows(table) == snapshot_texts(*read)[name@]
        },
{
    match read.open_table(redb::TableDefinition::<u64, String>::new(name)) {
        Ok(table) => Ok(TextTable { table }),
        Err(redb::TableError::Storage(error)) => Err(OpenFault::Storage(error)),
        Err(error @ redb::TableError::TableDoesNotExist(_)) => Err(OpenFault::Missing(error)),
        Err(error) => Err(OpenFault::Refused(error)),
    }
}

/// Calls `ReadTransaction::open_table` for a table of numbers: it opens only a table that the
/// snapshot has, and the opened table has the rows that the snapshot has under that name. Only a
/// name that no table has is missing, which the error says with the name; only a table of another
/// type is refused.
#[verifier::external_body]
pub(crate) fn open_numbers(read: &redb::ReadTransaction, name: &str) -> (result: Result<
    NumberTable,
    OpenFault,
>)
    requires
        name@.len() > 0,
    ensures
        result matches Err(OpenFault::Missing(error)) ==> !snapshot_names(*read).contains(name@)
            && displays_missing(error, name@),
        result matches Err(OpenFault::Refused(_)) ==> snapshot_names(*read).contains(name@)
            && !snapshot_numbers(*read).contains_key(name@),
        result matches Ok(table) ==> {
            &&& snapshot_names(*read).contains(name@)
            &&& snapshot_numbers(*read).contains_key(name@)
            &&& number_rows(table) == snapshot_numbers(*read)[name@]
        },
{
    match read.open_table(redb::TableDefinition::<u64, u64>::new(name)) {
        Ok(table) => Ok(NumberTable { table }),
        Err(redb::TableError::Storage(error)) => Err(OpenFault::Storage(error)),
        Err(error @ redb::TableError::TableDoesNotExist(_)) => Err(OpenFault::Missing(error)),
        Err(error) => Err(OpenFault::Refused(error)),
    }
}

impl TextTable {
    /// Calls `ReadOnlyTable::get`: the value of the key, if it has one.
    #[verifier::external_body]
    pub(crate) fn get(&self, key: u64) -> (result: Result<Option<String>, redb::StorageError>)
        ensures
            result matches Ok(Some(value)) ==> text_rows(*self).contains_key(key) && value@
                == text_rows(*self)[key],
            result matches Ok(None) ==> !text_rows(*self).contains_key(key),
    {
        Ok(self.table.get(key)?.map(|value| value.value()))
    }

    /// Calls `ReadOnlyTable::last`: the largest key, if the table has rows.
    #[verifier::external_body]
    pub(crate) fn last(&self) -> (result: Result<Option<u64>, redb::StorageError>)
        ensures
            result matches Ok(last) ==> last == last_key(text_rows(*self)),
    {
        Ok(redb::ReadableTable::last(&self.table)?.map(|row| row.0.value()))
    }

    /// Calls `ReadOnlyTable::range` with `start..end`: the rows whose key lies there, by
    /// ascending key.
    #[verifier::external_body]
    pub(crate) fn range(&self, start: u64, end: u64) -> (result: Result<
        TextRange,
        redb::StorageError,
    >)
        ensures
            result matches Ok(range) ==> is_listing(
                text_rows(*self),
                start as int,
                end as int,
                remaining_rows(range),
            ),
    {
        let range = self.table.range(start..end)?;
        Ok(TextRange { range })
    }
}

impl NumberTable {
    /// Calls `ReadOnlyTable::get`: the value of the key, if it has one.
    #[verifier::external_body]
    pub(crate) fn get(&self, key: u64) -> (result: Result<Option<u64>, redb::StorageError>)
        ensures
            result matches Ok(Some(value)) ==> number_rows(*self).contains_key(key) && value
                == number_rows(*self)[key],
            result matches Ok(None) ==> !number_rows(*self).contains_key(key),
    {
        Ok(self.table.get(key)?.map(|value| value.value()))
    }
}

impl TextRange {
    /// Calls `Range::next`: it gives the first of the remaining rows and keeps the others, or
    /// fails; it ends only when no row remains. After a failure nothing is said of the range.
    #[verifier::external_body]
    pub(crate) fn next(&mut self) -> (result: Option<Result<(u64, String), redb::StorageError>>)
        ensures
            result is None ==> remaining_rows(*old(self)).len() == 0,
            result matches Some(Ok(row)) ==> {
                &&& remaining_rows(*old(self)).len() > 0
                &&& row.0 == remaining_rows(*old(self))[0].0
                &&& row.1@ == remaining_rows(*old(self))[0].1
                &&& remaining_rows(*final(self)) == remaining_rows(*old(self)).skip(1)
            },
    {
        self.range.next().map(|row| row.map(|pair| (pair.0.value(), pair.1.value())))
    }
}

} // verus!

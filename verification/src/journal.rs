//! The log itself: two tables with the same keys, one with the texts of the entries and one
//! with the times at which they were written.

use vstd::prelude::*;

use crate::clock::{is_clock_error, is_clock_second, unix_seconds};
use crate::error::{is_storage_text, is_table_text, AnyhowError, AppError};
use crate::store;
use crate::store::{
    last_key, open_tables, pending, pending_names, pending_numbers, pending_texts, rows_of,
    same_session, snapshot, without_last, TableFault, Tables,
};

verus! {

/// The table of the texts.
pub const BLOG_TABLE: &'static str = "index_blog_list";

/// The table of the times.
pub const DATE_TABLE: &'static str = "index_date_list";

/// The log: the text and the time (in seconds since 1970) of each entry, by index.
#[verifier::ext_equal]
pub struct Journal {
    pub entries: Map<u64, Seq<char>>,
    pub dates: Map<u64, u64>,
}

impl Journal {
    /// Every entry has a time, and every time belongs to an entry.
    pub open spec fn is_aligned(self) -> bool {
        self.entries.dom() == self.dates.dom()
    }

    /// The index of the newest entry.
    pub open spec fn newest(self) -> Option<u64> {
        last_key(self.entries)
    }

    /// The index that the next entry gets.
    pub open spec fn next_index(self) -> int {
        match self.newest() {
            Some(index) => index + 1,
            None => 0,
        }
    }

    /// The log with an entry more.
    pub open spec fn with_entry(self, index: u64, content: Seq<char>, now: u64) -> Journal {
        Journal {
            entries: self.entries.insert(index, content),
            dates: self.dates.insert(index, now),
        }
    }

    /// The log without the entry `index`.
    pub open spec fn without_entry(self, index: u64) -> Journal {
        Journal { entries: self.entries.remove(index), dates: self.dates.remove(index) }
    }

    /// The log without its newest entry.
    pub open spec fn without_newest(self) -> Journal {
        Journal { entries: without_last(self.entries), dates: without_last(self.dates) }
    }
}

/// The log that these tables hold.
pub open spec fn journal_of(tables: Tables) -> Journal {
    Journal {
        entries: rows_of(tables.texts, BLOG_TABLE@),
        dates: rows_of(tables.numbers, DATE_TABLE@),
    }
}

/// The log as a write transaction sees it.
pub open spec fn pending_journal(txn: redb::WriteTransaction) -> Journal {
    journal_of(pending(txn))
}

/// Both tables of the log are there.
pub open spec fn has_journal(tables: Tables) -> bool {
    &&& tables.names.contains(BLOG_TABLE@) && tables.texts.contains_key(BLOG_TABLE@)
    &&& tables.names.contains(DATE_TABLE@) && tables.numbers.contains_key(DATE_TABLE@)
}

/// No table of another type takes the name of a table of the log.
pub open spec fn fits_journal(tables: Tables) -> bool {
    &&& tables.names.contains(BLOG_TABLE@) ==> tables.texts.contains_key(BLOG_TABLE@)
    &&& tables.names.contains(DATE_TABLE@) ==> tables.numbers.contains_key(DATE_TABLE@)
}

/// The tables of the log can be opened: their names are free or theirs, and neither is open.
pub open spec fn is_usable(txn: redb::WriteTransaction) -> bool {
    &&& fits_journal(pending(txn))
    &&& !open_tables(txn).contains(BLOG_TABLE@)
    &&& !open_tables(txn).contains(DATE_TABLE@)
}

/// From `before` to `after` the log became `journal`, and no other table changed.
pub open spec fn journal_becomes(before: Tables, after: Tables, journal: Journal) -> bool {
    &&& after.names == before.names.insert(BLOG_TABLE@).insert(DATE_TABLE@)
    &&& after.texts == before.texts.insert(BLOG_TABLE@, journal.entries)
    &&& after.numbers == before.numbers.insert(DATE_TABLE@, journal.dates)
}

/// From `before` to `after` the log got one more entry, with a time in seconds, under the index
/// after the largest one in use; no other table changed.
pub open spec fn wrote_entry(
    before: Tables,
    after: Tables,
    index: u64,
    content: Seq<char>,
) -> bool {
    &&& index == journal_of(before).next_index()
    &&& exists|now: u64|
        is_clock_second(now) && journal_becomes(
            before,
            after,
            #[trigger] journal_of(before).with_entry(index, content, now),
        )
}

/// `record` is the newest entry of the log, if it has one.
pub open spec fn is_newest_record(journal: Journal, record: Option<(u64, String)>) -> bool {
    match record {
        Some(record) => journal.newest() == Some(record.0) && record.1@
            == journal.entries[record.0],
        None => journal.newest() is None,
    }
}

/// An entry could not be written: the tables cannot be opened, the storage failed, or the clock
/// stands before 1970.
pub open spec fn is_write_error(error: AppError, usable: bool) -> bool {
    ||| error.is_table_error() && !usable
    ||| error.is_opening_error()
    ||| error.is_storage_error()
    ||| is_clock_error(error)
}

/// An entry could not be removed, for the reason that `text` gives: the tables cannot be opened,
/// or the storage failed.
pub open spec fn is_removal_text(text: String, usable: bool) -> bool {
    is_table_text(text) && !usable || is_storage_text(text)
}

/// The tables of the log have two different names.
pub(crate) proof fn lemma_table_names()
    ensures
        BLOG_TABLE@.len() > 0,
        DATE_TABLE@.len() > 0,
        BLOG_TABLE@ != DATE_TABLE@,
{
    reveal_strlit("index_blog_list");
    reveal_strlit("index_date_list");
    assert(BLOG_TABLE@[6] == 'b');
    assert(DATE_TABLE@[6] == 'd');
}

/// Of two steps in a row only the second decides what the log becomes.
proof fn lemma_last_step_decides(
    before: Tables,
    between: Tables,
    after: Tables,
    first: Journal,
    second: Journal,
)
    requires
        journal_becomes(before, between, first),
        journal_becomes(between, after, second),
    ensures
        journal_becomes(before, after, second),
{
    assert(after.names =~= before.names.insert(BLOG_TABLE@).insert(DATE_TABLE@));
    assert(after.texts =~= before.texts.insert(BLOG_TABLE@, second.entries));
    assert(after.numbers =~= before.numbers.insert(DATE_TABLE@, second.dates));
}

/// The index after `last`, the largest one in use.
pub fn index_after(last: Option<u64>) -> (index: u64)
    requires
        last != Some(u64::MAX),
    ensures
        index == match last {
            Some(last) => last + 1,
            None => 0,
        },
{
    match last {
        None => 0,
        Some(last) => last + 1,
    }
}

/// Makes sure that both tables are there, unless the database fails to open one: the error is
/// then the one that it gave.
fn create_tables(write_txn: &mut redb::WriteTransaction) -> (result: Result<(), TableFault>)
    ensures
        same_session(*old(write_txn), *final(write_txn)),
        result is Ok ==> journal_becomes(
            pending(*old(write_txn)),
            pending(*final(write_txn)),
            pending_journal(*old(write_txn)),
        ),
        result matches Err(TableFault::Refused(_)) ==> !is_usable(*old(write_txn)),
{
    proof {
        lemma_table_names();
    }
    if let Err(fault) = store::create_texts(write_txn, BLOG_TABLE) {
        return Err(fault);
    }
    store::create_numbers(write_txn, DATE_TABLE)
}

/// Stores an entry and its time under `index`.
pub fn store_entry(
    index: u64,
    content: String,
    now: u64,
    write_txn: &mut redb::WriteTransaction,
) -> (result: Result<(), AppError>)
    ensures
        same_session(*old(write_txn), *final(write_txn)),
        result is Ok ==> journal_becomes(
            pending(*old(write_txn)),
            pending(*final(write_txn)),
            pending_journal(*old(write_txn)).with_entry(index, content@, now),
        ),
        result matches Err(error) ==> is_write_error(error, is_usable(*old(write_txn)))
            && !(error is Internal),
{
    proof {
        lemma_table_names();
    }
    if let Err(fault) = store::insert_text(write_txn, BLOG_TABLE, index, content) {
        return Err(AppError::from_fault(fault));
    }
    match store::insert_number(write_txn, DATE_TABLE, index, now) {
        Ok(()) => Ok(()),
        Err(fault) => Err(AppError::from_fault(fault)),
    }
}

/// The newest index that a write transaction sees.
pub fn newest_pending(write_txn: &mut redb::WriteTransaction) -> (result: Result<
    Option<u64>,
    AppError,
>)
    ensures
        same_session(*old(write_txn), *final(write_txn)),
        result matches Ok(newest) ==> {
            &&& newest == pending_journal(*old(write_txn)).newest()
            &&& pending_names(*final(write_txn)) == pending_names(*old(write_txn)).insert(
                BLOG_TABLE@,
            )
            &&& pending_texts(*final(write_txn)) == pending_texts(*old(write_txn)).insert(
                BLOG_TABLE@,
                pending_journal(*old(write_txn)).entries,
            )
            &&& pending_numbers(*final(write_txn)) == pending_numbers(*old(write_txn))
            &&& pending_journal(*final(write_txn)) == pending_journal(*old(write_txn))
        },
        result matches Err(error) ==> is_write_error(error, is_usable(*old(write_txn)))
            && !(error is Internal),
{
    proof {
        lemma_table_names();
    }
    match store::last_text(write_txn, BLOG_TABLE) {
        Ok(newest) => Ok(newest),
        Err(fault) => Err(AppError::from_fault(fault)),
    }
}

/// Writes an entry at the end of the log, with the time that the clock shows, and returns its
/// index. If the clock fails, the log stays as it is.
pub fn write_table(content: String, write_txn: &mut redb::WriteTransaction) -> (result: Result<
    u64,
    AppError,
>)
    requires
        pending_journal(*old(write_txn)).newest() != Some(u64::MAX),
    ensures
        same_session(*old(write_txn), *final(write_txn)),
        result matches Ok(index) ==> wrote_entry(
            pending(*old(write_txn)),
            pending(*final(write_txn)),
            index,
            content@,
        ),
        result matches Err(error) ==> is_write_error(error, is_usable(*old(write_txn))),
        result matches Err(AppError::Internal(_)) ==> pending_journal(*final(write_txn))
            == pending_journal(*old(write_txn)),
{
    if let Err(fault) = create_tables(write_txn) {
        return Err(AppError::from_fault(fault));
    }
    let last_index = match newest_pending(write_txn) {
        Ok(last_index) => last_index,
        Err(error) => return Err(error),
    };
    let now = match unix_seconds() {
        Ok(now) => now,
        Err(error) => return Err(error),
    };
    let index = index_after(last_index);
    let ghost text = content@;
    match store_entry(index, content, now, write_txn) {
        Ok(()) => {
            proof {
                let before = pending(*old(write_txn));
                let after = pending(*write_txn);
                let journal = journal_of(before).with_entry(index, text, now);
                assert(after.names == before.names.insert(BLOG_TABLE@).insert(DATE_TABLE@));
                assert(after.texts == before.texts.insert(BLOG_TABLE@, journal.entries));
                assert(after.numbers == before.numbers.insert(DATE_TABLE@, journal.dates));
                assert(journal_becomes(before, after, journal));
            }
            Ok(index)
        },
        Err(error) => Err(error),
    }
}

/// Writes an entry as `write_table` does, unless the largest index is taken already: then it
/// returns no index and leaves the log as it is.
pub fn try_write_table(content: String, write_txn: &mut redb::WriteTransaction) -> (result: Result<
    Option<u64>,
    AppError,
>)
    ensures
        same_session(*old(write_txn), *final(write_txn)),
        result matches Ok(Some(index)) ==> wrote_entry(
            pending(*old(write_txn)),
            pending(*final(write_txn)),
            index,
            content@,
        ),
        result matches Ok(None) ==> {
            &&& pending_journal(*old(write_txn)).newest() == Some(u64::MAX)
            &&& pending_journal(*final(write_txn)) == pending_journal(*old(write_txn))
        },
        result matches Err(error) ==> is_write_error(error, is_usable(*old(write_txn))),
        result matches Err(AppError::Internal(_)) ==> pending_journal(*final(write_txn))
            == pending_journal(*old(write_txn)),
{
    proof {
        lemma_table_names();
    }
    let last_index = match newest_pending(write_txn) {
        Ok(last_index) => last_index,
        Err(error) => return Err(error),
    };
    if last_index == Some(u64::MAX) {
        return Ok(None);
    }
    let ghost seen = pending(*write_txn);
    match write_table(content, write_txn) {
        Ok(index) => {
            proof {
                let before = pending(*old(write_txn));
                let after = pending(*write_txn);
                let now = choose|now: u64|
                    is_clock_second(now) && journal_becomes(
                        seen,
                        after,
                        #[trigger] journal_of(seen).with_entry(index, content@, now),
                    );
                let journal = journal_of(before).with_entry(index, content@, now);
                assert(after.names == before.names.insert(BLOG_TABLE@).insert(DATE_TABLE@));
                assert(after.texts == before.texts.insert(BLOG_TABLE@, journal.entries));
                assert(journal_becomes(before, after, journal));
            }
            Ok(Some(index))
        },
        Err(error) => Err(error),
    }
}

/// Removes the newest entry and its time, if there is one, and returns its index and text.
pub fn pop_from_table(write_txn: &mut redb::WriteTransaction) -> (result: Result<
    Option<(u64, String)>,
    AnyhowError,
>)
    ensures
        same_session(*old(write_txn), *final(write_txn)),
        result matches Ok(record) ==> {
            &&& journal_becomes(
                pending(*old(write_txn)),
                pending(*final(write_txn)),
                pending_journal(*old(write_txn)).without_newest(),
            )
            &&& is_newest_record(pending_journal(*old(write_txn)), record)
        },
        result matches Err(error) ==> is_removal_text(error.0, is_usable(*old(write_txn))),
{
    proof {
        lemma_table_names();
    }
    if let Err(fault) = create_tables(write_txn) {
        return Err(AnyhowError::from_fault(fault));
    }
    let ghost ready = pending(*write_txn);
    let record = match store::pop_last_text(write_txn, BLOG_TABLE) {
        Ok(record) => record,
        Err(fault) => return Err(AnyhowError::from_fault(fault)),
    };
    match store::pop_last_number(write_txn, DATE_TABLE) {
        Ok(()) => {
            proof {
                let before = pending(*old(write_txn));
                let journal = journal_of(before);
                lemma_last_step_decides(
                    before,
                    ready,
                    pending(*write_txn),
                    journal,
                    journal.without_newest(),
                );
            }
            Ok(record)
        },
        Err(fault) => Err(AnyhowError::from_fault(fault)),
    }
}

/// Removes the entry `index` and its time, if there is one.
pub fn remove_from_table(index: u64, write_txn: &mut redb::WriteTransaction) -> (result: Result<
    (),
    AnyhowError,
>)
    ensures
        same_session(*old(write_txn), *final(write_txn)),
        result is Ok ==> journal_becomes(
            pending(*old(write_txn)),
            pending(*final(write_txn)),
            pending_journal(*old(write_txn)).without_entry(index),
        ),
        result matches Err(error) ==> is_removal_text(error.0, is_usable(*old(write_txn))),
{
    proof {
        lemma_table_names();
    }
    if let Err(fault) = create_tables(write_txn) {
        return Err(AnyhowError::from_fault(fault));
    }
    let ghost ready = pending(*write_txn);
    if let Err(fault) = store::remove_text(write_txn, BLOG_TABLE, index) {
        return Err(AnyhowError::from_fault(fault));
    }
    match store::remove_number(write_txn, DATE_TABLE, index) {
        Ok(()) => {
            proof {
                let before = pending(*old(write_txn));
                let journal = journal_of(before);
                lemma_last_step_decides(
                    before,
                    ready,
                    pending(*write_txn),
                    journal,
                    journal.without_entry(index),
                );
            }
            Ok(())
        },
        Err(fault) => Err(AnyhowError::from_fault(fault)),
    }
}

/// The table `name` could not be opened for reading: there is no table of that name, the one that
/// there is has another type, or the storage failed.
pub open spec fn is_open_error(
    error: AppError,
    name: Seq<char>,
    named: bool,
    found: bool,
) -> bool {
    ||| error.is_missing_error(name) && !named
    ||| error.is_table_error() && named && !found
    ||| error.is_opening_error()
}

/// The table of the texts could not be opened in these tables.
pub open spec fn is_blog_error(error: AppError, tables: Tables) -> bool {
    is_open_error(
        error,
        BLOG_TABLE@,
        tables.names.contains(BLOG_TABLE@),
        tables.texts.contains_key(BLOG_TABLE@),
    )
}

/// The table of the times could not be opened in these tables.
pub open spec fn is_date_table_error(error: AppError, tables: Tables) -> bool {
    is_open_error(
        error,
        DATE_TABLE@,
        tables.names.contains(DATE_TABLE@),
        tables.numbers.contains_key(DATE_TABLE@),
    )
}

/// The texts could not be read from these tables.
pub open spec fn is_read_error(error: AppError, tables: Tables) -> bool {
    ||| is_blog_error(error, tables)
    ||| has_texts(tables) && error.is_storage_error()
}

/// The table of the texts is there.
pub open spec fn has_texts(tables: Tables) -> bool {
    tables.names.contains(BLOG_TABLE@) && tables.texts.contains_key(BLOG_TABLE@)
}

/// The index of the newest entry in a snapshot.
pub fn get_last_index(read: redb::ReadTransaction) -> (result: Result<Option<u64>, AppError>)
    ensures
        result matches Ok(newest) ==> {
            &&& has_texts(snapshot(read))
            &&& newest == journal_of(snapshot(read)).newest()
        },
        result matches Err(error) ==> is_read_error(error, snapshot(read)),
{
    proof {
        lemma_table_names();
    }
    let table = match store::open_texts(&read, BLOG_TABLE) {
        Ok(table) => table,
        Err(fault) => return Err(AppError::from_open_fault(fault)),
    };
    match table.last() {
        Ok(newest) => Ok(newest),
        Err(error) => Err(AppError::from_storage(error)),
    }
}

} // verus!

//! The requests that the service answers.

use axum::http::HeaderMap;
use vstd::prelude::*;
use vstd::string::to_string_from_display_ensures;

use crate::auth::{check, is_authorized};
use crate::config::{Config, ContentRequest, RemoveRequest};
use crate::error::{is_commit_text, is_storage_text, is_transaction_text, AnyhowError, AppError};
use crate::journal::{
    fits_journal, get_last_index, has_journal, has_texts, is_blog_error, is_date_table_error,
    is_newest_record, is_read_error, is_removal_text, is_write_error, journal_becomes, journal_of,
    lemma_table_names, pop_from_table, remove_from_table, try_write_table, wrote_entry, Journal,
    BLOG_TABLE, DATE_TABLE,
};
use crate::page::{
    is_first_bad_row, is_row_error, is_showable, list_entries, page_end, page_exists, page_number,
    page_range, page_start, shows_rows,
};
use crate::store;
use crate::store::{
    committed, is_listing, number_rows, pending, remaining_rows, snapshot, NumberTable, Tables,
    TextRange,
};
use crate::text::{decimal, decimal_text, join};

verus! {

/// What the home page shows: the title, and of each entry its preview and its date.
#[derive(Debug)]
pub struct HomePage {
    pub title: String,
    pub contents: Vec<(String, String)>,
    /// Why the entries could not be looked up; the page is empty then.
    pub fault: Option<String>,
}

/// What the page of one entry shows.
#[derive(Debug)]
pub struct ContentPage {
    pub title: String,
    pub content: String,
}

/// The answer to a request that wrote or removed an entry.
#[derive(Debug)]
pub struct IndexReply {
    pub code: i64,
    pub index: u64,
}

/// The answer to a request that popped the newest entry: the index and the text that it had, if
/// there was one.
#[derive(Debug)]
pub struct StatusReply {
    pub status: i64,
    pub record: Option<(u64, String)>,
}

/// The lines show the entries of the log whose index lies in `start..end`, the newest first.
pub open spec fn shows_page(
    lines: Seq<(String, String)>,
    journal: Journal,
    start: int,
    end: int,
    split_length: u64,
) -> bool {
    exists|rows: Seq<(u64, Seq<char>)>| #[trigger]
        is_listing(journal.entries, start, end, rows) && shows_rows(
            lines,
            rows,
            journal.dates,
            split_length,
        )
}

/// Of the entries of the log with an index in `start..end`, the first one that cannot be shown
/// fails for the reason `error`.
pub open spec fn has_bad_entry(journal: Journal, start: int, end: int, error: AppError) -> bool {
    exists|index: u64|
        {
            &&& #[trigger] journal.entries.contains_key(index)
            &&& start <= index < end
            &&& is_row_error(error, (index, journal.entries[index]), journal.dates)
            &&& forall|earlier: u64| #[trigger]
                journal.entries.contains_key(earlier) && start <= earlier < index ==> is_showable(
                    (earlier, journal.entries[earlier]),
                    journal.dates,
                )
        }
}

/// `result` answers a request for the home page from these tables. A page whose entries cannot
/// be looked up at all comes out empty.
pub open spec fn is_home_answer(
    tables: Tables,
    config: Config,
    page: Option<u64>,
    result: Result<HomePage, AppError>,
) -> bool {
    let start = page_start(page_number(page), config.page_content as int);
    let end = page_end(page_number(page), config.page_content as int);
    match result {
        Ok(shown) => {
            &&& has_journal(tables)
            &&& shown.title@ == config.title@
            &&& match shown.fault {
                None => shows_page(
                    shown.contents@,
                    journal_of(tables),
                    start,
                    end,
                    config.split_length,
                ),
                Some(text) => is_storage_text(text) && shown.contents@.len() == 0,
            }
        },
        Err(error) => {
            ||| is_blog_error(error, tables)
            ||| has_texts(tables) && is_date_table_error(error, tables)
            ||| has_journal(tables) && error.is_storage_error()
            ||| has_journal(tables) && has_bad_entry(journal_of(tables), start, end, error)
        },
    }
}

/// The lines for a range that was looked up; if the look-up failed, none, and the reason.
pub fn home_contents(
    range: Result<TextRange, redb::StorageError>,
    dates: &NumberTable,
    split_length: u64,
) -> (result: Result<(Vec<(String, String)>, Option<String>), AppError>)
    requires
        split_length as usize > 0,
    ensures
        match range {
            Ok(range) => match result {
                Ok(shown) => shown.1 is None && shows_rows(
                    shown.0@,
                    remaining_rows(range),
                    number_rows(*dates),
                    split_length,
                ),
                Err(error) => error.is_storage_error() || exists|i: int| #[trigger]
                    is_first_bad_row(error, remaining_rows(range), i, number_rows(*dates)),
            },
            Err(error) => result matches Ok(shown) && shown.0@.len() == 0 && (shown.1 matches Some(
                text,
            ) && to_string_from_display_ensures(&error, text)),
        },
{
    match range {
        Ok(range) => match list_entries(range, dates, split_length) {
            Ok(lines) => Ok((lines, None)),
            Err(error) => Err(error),
        },
        Err(error) => Ok((Vec::new(), Some(error.to_string()))),
    }
}

/// The home page, from a snapshot.
pub fn home_page(read: &redb::ReadTransaction, config: &Config, page: Option<u64>) -> (result:
    Result<HomePage, AppError>)
    requires
        page_exists(page, config.page_content),
        config.split_length as usize > 0,
    ensures
        is_home_answer(snapshot(*read), *config, page, result),
{
    proof {
        lemma_table_names();
    }
    let (start, end) = page_range(page, config.page_content);
    let entries = match store::open_texts(read, BLOG_TABLE) {
        Ok(entries) => entries,
        Err(fault) => return Err(AppError::from_open_fault(fault)),
    };
    let dates = match store::open_numbers(read, DATE_TABLE) {
        Ok(dates) => dates,
        Err(fault) => return Err(AppError::from_open_fault(fault)),
    };
    let ghost journal = journal_of(snapshot(*read));
    let range = entries.range(start, end);
    let ghost looked_up = range;
    match home_contents(range, &dates, config.split_length) {
        Ok((contents, fault)) => {
            proof {
                if let Ok(range) = looked_up {
                    assert(is_listing(
                        journal.entries,
                        start as int,
                        end as int,
                        remaining_rows(range),
                    ));
                }
            }
            Ok(HomePage { title: config.title.clone(), contents, fault })
        },
        Err(error) => {
            proof {
                if !error.is_storage_error() {
                    let rows = remaining_rows(looked_up->Ok_0);
                    let i = choose|i: int| #[trigger]
                        is_first_bad_row(error, rows, i, number_rows(dates));
                    lemma_bad_row_is_bad_entry(
                        journal,
                        start as int,
                        end as int,
                        rows,
                        i,
                        error,
                    );
                }
            }
            Err(error)
        },
    }
}

/// The first row of a listing that cannot be shown is the first such entry of the log.
proof fn lemma_bad_row_is_bad_entry(
    journal: Journal,
    start: int,
    end: int,
    rows: Seq<(u64, Seq<char>)>,
    i: int,
    error: AppError,
)
    requires
        is_listing(journal.entries, start, end, rows),
        is_first_bad_row(error, rows, i, journal.dates),
    ensures
        has_bad_entry(journal, start, end, error),
{
    let index = rows[i].0;
    assert(journal.entries.contains_key(index));
    assert(rows[i] == (index, journal.entries[index]));
    assert forall|earlier: u64| #[trigger]
        journal.entries.contains_key(earlier) && start <= earlier < index implies is_showable(
        (earlier, journal.entries[earlier]),
        journal.dates,
    ) by {
        let j = choose|j: int| 0 <= j < rows.len() && (#[trigger] rows[j]).0 == earlier;
        if j > i {
            assert(rows[i].0 < rows[j].0);
        }
        assert(rows[j] == (earlier, journal.entries[earlier]));
    }
}

/// `result` answers a request for one entry from these tables.
pub open spec fn is_content_answer(
    tables: Tables,
    config: Config,
    index: u64,
    result: Result<ContentPage, AppError>,
) -> bool {
    let entries = journal_of(tables).entries;
    match result {
        Ok(shown) => {
            &&& has_texts(tables)
            &&& entries.contains_key(index)
            &&& shown.title@ == config.title@
            &&& shown.content@ == entries[index]
        },
        Err(error) => {
            ||| is_read_error(error, tables)
            ||| error is NotFound && has_texts(tables) && !entries.contains_key(index)
        },
    }
}

/// The page of an entry that was looked up.
pub fn page_of(content: Option<String>, config: &Config) -> (result: Result<ContentPage, AppError>)
    ensures
        match content {
            Some(content) => result matches Ok(shown) && shown.title@ == config.title@
                && shown.content@ == content@,
            None => result matches Err(error) && error is NotFound,
        },
{
    match content {
        Some(content) => Ok(ContentPage { title: config.title.clone(), content }),
        None => Err(AppError::NotFound),
    }
}

/// The page of one entry, from a snapshot.
pub fn content_page(read: &redb::ReadTransaction, config: &Config, index: u64) -> (result: Result<
    ContentPage,
    AppError,
>)
    ensures
        is_content_answer(snapshot(*read), *config, index, result),
{
    proof {
        lemma_table_names();
    }
    let table = match store::open_texts(read, BLOG_TABLE) {
        Ok(table) => table,
        Err(fault) => return Err(AppError::from_open_fault(fault)),
    };
    match table.get(index) {
        Ok(content) => page_of(content, config),
        Err(error) => Err(AppError::from_storage(error)),
    }
}

/// The address of an entry.
pub open spec fn entry_address(config: Config, index: u64) -> Seq<char> {
    "https://"@ + config.url@ + "/"@ + decimal(index as nat)
}

/// `result` answers a request for the newest entry from these tables.
pub open spec fn is_newest_answer(
    tables: Tables,
    config: Config,
    result: Result<String, AppError>,
) -> bool {
    let newest = journal_of(tables).newest();
    match result {
        Ok(location) => has_texts(tables) && (newest matches Some(index) && location@
            == entry_address(config, index)),
        Err(error) => {
            ||| is_read_error(error, tables)
            ||| error is NotFound && has_texts(tables) && newest is None
        },
    }
}

/// Where to find the entry with the index that was looked up.
pub fn location_of(index: Option<u64>, config: &Config) -> (result: Result<String, AppError>)
    ensures
        match index {
            Some(index) => result matches Ok(location) && location@ == entry_address(
                *config,
                index,
            ),
            None => result matches Err(error) && error is NotFound,
        },
{
    match index {
        Some(index) => {
            let host = join("https://", config.url.as_str());
            let directory = join(host.as_str(), "/");
            Ok(join(directory.as_str(), decimal_text(index).as_str()))
        },
        None => Err(AppError::NotFound),
    }
}

/// Where to find the newest entry, from a snapshot.
pub fn newest_location(read: redb::ReadTransaction, config: &Config) -> (result: Result<
    String,
    AppError,
>)
    ensures
        is_newest_answer(snapshot(read), *config, result),
{
    match get_last_index(read) {
        Ok(last) => location_of(last, config),
        Err(error) => Err(error),
    }
}

/// Answers a request for the home page.
pub fn home(db: &redb::Database, config: &Config, page: Option<u64>) -> (result: Result<
    HomePage,
    AppError,
>)
    requires
        page_exists(page, config.page_content),
        config.split_length as usize > 0,
    ensures
        result matches Err(error) && error.is_transaction_error() || is_home_answer(
            committed(*db),
            *config,
            page,
            result,
        ),
{
    match store::begin_read(db) {
        Ok(read) => home_page(&read, config, page),
        Err(error) => Err(AppError::from_transaction(error)),
    }
}

/// Answers a request for one entry.
pub fn get_content(db: &redb::Database, config: &Config, index: u64) -> (result: Result<
    ContentPage,
    AppError,
>)
    ensures
        result matches Err(error) && error.is_transaction_error() || is_content_answer(
            committed(*db),
            *config,
            index,
            result,
        ),
{
    match store::begin_read(db) {
        Ok(read) => content_page(&read, config, index),
        Err(error) => Err(AppError::from_transaction(error)),
    }
}

/// Answers a request for the newest entry with its address.
pub fn newest(db: &redb::Database, config: &Config) -> (result: Result<String, AppError>)
    ensures
        result matches Err(error) && error.is_transaction_error() || is_newest_answer(
            committed(*db),
            *config,
            result,
        ),
{
    match store::begin_read(db) {
        Ok(read) => newest_location(read, config),
        Err(error) => Err(AppError::from_transaction(error)),
    }
}

/// `result` reports an attempt to write an entry that took the database from `before` to `after`.
/// Unless it was the commit that failed, a failed attempt leaves the database as it was.
pub open spec fn is_push_outcome(
    before: Tables,
    after: Tables,
    content: Seq<char>,
    result: Result<Option<u64>, AppError>,
) -> bool {
    match result {
        Ok(Some(index)) => wrote_entry(before, after, index, content),
        Ok(None) => journal_of(before).newest() == Some(u64::MAX) && after == before,
        Err(error) => {
            ||| error.is_commit_error()
            ||| (error.is_transaction_error() || is_write_error(error, fits_journal(before)))
                && after == before
        },
    }
}

/// `result` reports an attempt to remove the newest entry that took the database from `before` to
/// `after`. Unless it was the commit that failed, a failed attempt leaves the database as it was.
pub open spec fn is_pop_outcome(
    before: Tables,
    after: Tables,
    result: Result<Option<(u64, String)>, AppError>,
) -> bool {
    let journal = journal_of(before);
    match result {
        Ok(record) => {
            &&& journal_becomes(before, after, journal.without_newest())
            &&& is_newest_record(journal, record)
        },
        Err(error) => {
            ||| error.is_commit_error()
            ||| error.is_transaction_error() && after == before
            ||| (error matches AppError::Internal(error) && is_removal_text(
                error.0,
                fits_journal(before),
            )) && after == before
        },
    }
}

/// `result` reports an attempt to remove an entry that took the database from `before` to `after`.
/// Unless it was the commit that failed, a failed attempt leaves the database as it was.
pub open spec fn is_remove_outcome(
    before: Tables,
    after: Tables,
    index: u64,
    result: Result<(), AnyhowError>,
) -> bool {
    match result {
        Ok(()) => journal_becomes(before, after, journal_of(before).without_entry(index)),
        Err(error) => {
            ||| is_commit_text(error.0)
            ||| (is_transaction_text(error.0) || is_removal_text(error.0, fits_journal(before)))
                && after == before
        },
    }
}

/// Writes an entry to the database and commits it. No index is given if the largest one is
/// taken; then nothing is committed.
pub fn push_local(db: &mut redb::Database, content: String) -> (result: Result<
    Option<u64>,
    AppError,
>)
    ensures
        is_push_outcome(committed(*old(db)), committed(*final(db)), content@, result),
{
    let mut write_txn = match store::begin_write(db) {
        Ok(write_txn) => write_txn,
        Err(error) => return Err(AppError::from_transaction(error)),
    };
    assert(pending(write_txn) == committed(*old(db)));
    let index = match try_write_table(content, &mut write_txn) {
        Ok(Some(index)) => index,
        Ok(None) => return Ok(None),
        Err(error) => return Err(error),
    };
    let ghost written = pending(write_txn);
    match store::commit(db, write_txn) {
        Ok(()) => {
            assert(committed(*db) == written);
            Ok(Some(index))
        },
        Err(error) => Err(AppError::from_commit(error)),
    }
}

/// Removes the newest entry from the database, if there is one, commits the removal and returns
/// the index and the text of the entry.
pub fn pop_local(db: &mut redb::Database) -> (result: Result<Option<(u64, String)>, AppError>)
    ensures
        is_pop_outcome(committed(*old(db)), committed(*final(db)), result),
{
    let mut write_txn = match store::begin_write(db) {
        Ok(write_txn) => write_txn,
        Err(error) => return Err(AppError::from_transaction(error)),
    };
    assert(pending(write_txn) == committed(*old(db)));
    let record = match pop_from_table(&mut write_txn) {
        Ok(record) => record,
        Err(error) => return Err(AppError::Internal(error)),
    };
    let ghost written = pending(write_txn);
    match store::commit(db, write_txn) {
        Ok(()) => {
            assert(committed(*db) == written);
            Ok(record)
        },
        Err(error) => Err(AppError::from_commit(error)),
    }
}

/// Removes an entry from the database, if it is there, and commits the removal.
pub fn remove_local(db: &mut redb::Database, index: u64) -> (result: Result<(), AnyhowError>)
    ensures
        is_remove_outcome(committed(*old(db)), committed(*final(db)), index, result),
{
    let mut write_txn = match store::begin_write(db) {
        Ok(write_txn) => write_txn,
        Err(error) => return Err(AnyhowError::from(error)),
    };
    assert(pending(write_txn) == committed(*old(db)));
    if let Err(error) = remove_from_table(index, &mut write_txn) {
        return Err(error);
    }
    let ghost written = pending(write_txn);
    match store::commit(db, write_txn) {
        Ok(()) => {
            assert(committed(*db) == written);
            Ok(())
        },
        Err(error) => Err(AnyhowError::from(error)),
    }
}

/// `result` answers a request to write an entry that took the database from `before` to `after`.
/// Without the password the database stays as it was.
pub open spec fn is_push_answer(
    authorized: bool,
    before: Tables,
    after: Tables,
    content: Seq<char>,
    result: Result<Option<IndexReply>, AppError>,
) -> bool {
    if authorized {
        match result {
            Ok(Some(reply)) => reply.code == 0 && is_push_outcome(
                before,
                after,
                content,
                Ok(Some(reply.index)),
            ),
            Ok(None) => is_push_outcome(before, after, content, Ok(None)),
            Err(error) => is_push_outcome(before, after, content, Err(error)),
        }
    } else {
        &&& result matches Err(AppError::Internal(error)) && error@ == "Wrong password!"@
        &&& after == before
    }
}

/// `result` answers a request to remove the newest entry that took the database from `before` to
/// `after`. Without the password the database stays as it was.
pub open spec fn is_pop_answer(
    authorized: bool,
    before: Tables,
    after: Tables,
    result: Result<StatusReply, AppError>,
) -> bool {
    if authorized {
        match result {
            Ok(reply) => reply.status == 0 && is_pop_outcome(before, after, Ok(reply.record)),
            Err(error) => is_pop_outcome(before, after, Err(error)),
        }
    } else {
        &&& result matches Err(AppError::Internal(error)) && error@ == "Wrong password!"@
        &&& after == before
    }
}

/// `result` answers a request to remove an entry that took the database from `before` to `after`.
/// Without the password the database stays as it was.
pub open spec fn is_remove_answer(
    authorized: bool,
    before: Tables,
    after: Tables,
    index: u64,
    result: Result<IndexReply, AnyhowError>,
) -> bool {
    if authorized {
        match result {
            Ok(reply) => reply.code == 0 && reply.index == index && is_remove_outcome(
                before,
                after,
                index,
                Ok(()),
            ),
            Err(error) => is_remove_outcome(before, after, index, Err(error)),
        }
    } else {
        &&& result matches Err(error) && error@ == "Wrong password!"@
        &&& after == before
    }
}

/// Answers a request to write an entry. Without the password nothing is written. No answer is
/// given if the largest index is taken.
pub fn push(
    header: HeaderMap,
    db: &mut redb::Database,
    config: &Config,
    content_request: ContentRequest,
) -> (result: Result<Option<IndexReply>, AppError>)
    ensures
        is_push_answer(
            is_authorized(header, config.push_password@),
            committed(*old(db)),
            committed(*final(db)),
            content_request.content@,
            result,
        ),
{
    if let Err(error) = check(header, config.push_password.as_str()) {
        return Err(AppError::Internal(error));
    }
    match push_local(db, content_request.content) {
        Ok(Some(index)) => Ok(Some(IndexReply { code: 0, index })),
        Ok(None) => Ok(None),
        Err(error) => Err(error),
    }
}

/// Answers a request to remove the newest entry. Without the password nothing is removed.
pub fn pop(header: HeaderMap, db: &mut redb::Database, config: &Config) -> (result: Result<
    StatusReply,
    AppError,
>)
    ensures
        is_pop_answer(
            is_authorized(header, config.push_password@),
            committed(*old(db)),
            committed(*final(db)),
            result,
        ),
{
    if let Err(error) = check(header, config.push_password.as_str()) {
        return Err(AppError::Internal(error));
    }
    match pop_local(db) {
        Ok(record) => Ok(StatusReply { status: 0, record }),
        Err(error) => Err(error),
    }
}

/// Answers a request to remove an entry. Without the password nothing is removed.
pub fn remove(
    header: HeaderMap,
    db: &mut redb::Database,
    config: &Config,
    request: RemoveRequest,
) -> (result: Result<IndexReply, AnyhowError>)
    ensures
        is_remove_answer(
            is_authorized(header, config.push_password@),
            committed(*old(db)),
            committed(*final(db)),
            request.index,
            result,
        ),
{
    if let Err(error) = check(header, config.push_password.as_str()) {
        return Err(error);
    }
    match remove_local(db, request.index) {
        Ok(()) => Ok(IndexReply { code: 0, index: request.index }),
        Err(error) => Err(error),
    }
}

} // verus!

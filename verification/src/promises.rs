//! What the calls promise, said of their arguments, their results and the database alone.
//!
//! Each law begins with calls that were made: `call_ensures(f, args, result)` says that `f`, called
//! with `args`, gave `result`.

use axum::http::{HeaderMap, HeaderValue};
use vstd::prelude::*;
use vstd::string::to_string_from_display_ensures;

use crate::auth::{
    accepts, bearer, chars_of, check, header_fields, is_blank, trim, trim_end, trim_start,
};
use crate::client::{
    after_open_failure, pop_call, push_call, remove_call, Body, Endpoint, Fallback, Method,
    RemoteCall, Subcmd,
};
use crate::clock::{
    date_at, is_clock_second, is_date_of, is_offset, is_unix_time, is_zone_offset, local_date,
    moment_nanos, seconds_at, signed_second, strftime_text, DATE_FORMAT,
};
use crate::config::{Config, ContentRequest, RemoveRequest};
use crate::error::{
    is_commit_text, is_storage_text, AnyhowError, AppError, DatabaseFault, ErrorReply, TextReply,
};
use crate::journal::{
    get_last_index, index_after, journal_becomes, journal_of, pop_from_table, remove_from_table,
    store_entry, try_write_table, write_table, wrote_entry,
};
use crate::laws::{lemma_newest_has_the_largest_index, lemma_pop_removes_the_newest};
use crate::page::{
    entry_line, has_page, is_row_error, page_range, preview, preview_of, shows_entry, shows_rows,
    text_chunks,
};
use crate::service::{
    get_content, has_bad_entry, home, is_pop_outcome, location_of, newest, page_of, pop, pop_local,
    push, push_local, remove, remove_local, ContentPage, HomePage, IndexReply, StatusReply,
};
use crate::store::{
    committed, committed_names, committed_numbers, committed_texts, is_listing, pending,
    pending_numbers, pending_texts, snapshot, snapshot_texts, Tables,
};
use crate::text::{decimal, decimal_text};

verus! {

/// A number that is written in decimal notation is read back: the text consists of digits, has no
/// leading zero, and its value is the number.
pub proof fn lemma_decimal_text_is_read_back(n: u64, text: String)
    requires
        call_ensures(decimal_text, (n,), text),
    ensures
        text@.len() > 0,
        forall|i: int| 0 <= i < text@.len() ==> '0' <= #[trigger] text@[i] <= '9',
        text@[0] == '0' ==> text@.len() == 1,
        text@.fold_left(0int, |value: int, c: char| 10 * value + (c as int - '0' as int)) == n,
{
    lemma_decimal_value(n as nat);
}

/// The value of the digits of a number is the number.
proof fn lemma_decimal_value(n: nat)
    ensures
        decimal(n).len() > 0,
        forall|i: int| 0 <= i < decimal(n).len() ==> '0' <= #[trigger] decimal(n)[i] <= '9',
        decimal(n)[0] == '0' ==> n == 0 && decimal(n).len() == 1,
        decimal(n).fold_left(0int, |value: int, c: char| 10 * value + (c as int - '0' as int))
            == n,
    decreases n,
{
    let f = |value: int, c: char| 10 * value + (c as int - '0' as int);
    reveal_with_fuel(Seq::fold_left, 3);
    if n >= 10 {
        lemma_decimal_value(n / 10);
        assert(decimal(n).drop_last() =~= decimal(n / 10));
        assert(decimal(n)[0] == decimal(n / 10)[0]);
    }
}

/// A page of an entry has exactly the text that the database holds under that index, and the
/// configured title. An entry that is there is never not found, and one that is not there is never
/// shown.
pub proof fn lemma_page_has_the_stored_text(
    db: redb::Database,
    config: Config,
    index: u64,
    result: Result<ContentPage, AppError>,
)
    requires
        call_ensures(get_content, (&db, &config, index), result),
    ensures
        ({
            let found = committed_texts(db).contains_key("index_blog_list"@);
            let rows = committed_texts(db)["index_blog_list"@];
            match result {
                Ok(page) => {
                    &&& found && rows.contains_key(index)
                    &&& page.content@ == rows[index]
                    &&& page.title@ == config.title@
                },
                Err(AppError::NotFound) => found && !rows.contains_key(index),
                Err(error) => error is Table || error is Storage || error is Transaction,
            }
        }),
{
}

/// The address of the newest entry is the configured host, a slash and a number whose value is the
/// largest index in use; only a log without entries has no newest one.
pub proof fn lemma_newest_address_leads_to_the_newest_entry(
    db: redb::Database,
    config: Config,
    result: Result<String, AppError>,
)
    requires
        call_ensures(newest, (&db, &config), result),
    ensures
        ({
            let found = committed_texts(db).contains_key("index_blog_list"@);
            let rows = committed_texts(db)["index_blog_list"@];
            match result {
                Ok(location) => {
                    let host = "https://"@ + config.url@ + "/"@;
                    let id = location@.skip(host.len() as int);
                    let index = id.fold_left(
                        0int,
                        |value: int, c: char| 10 * value + (c as int - '0' as int),
                    );
                    &&& location@ == host + id
                    &&& id.len() > 0
                    &&& forall|i: int| 0 <= i < id.len() ==> '0' <= #[trigger] id[i] <= '9'
                    &&& id[0] == '0' ==> id.len() == 1
                    &&& found && 0 <= index <= u64::MAX && rows.contains_key(index as u64)
                    &&& forall|other: u64| rows.contains_key(other) ==> other <= index
                },
                Err(AppError::NotFound) => found && forall|other: u64| !rows.contains_key(other),
                Err(error) => error is Table || error is Storage || error is Transaction,
            }
        }),
{
    let journal = journal_of(committed(db));
    lemma_newest_has_the_largest_index(journal);
    if let Ok(location) = result {
        let host = "https://"@ + config.url@ + "/"@;
        let index = journal.newest()->Some_0;
        assert(location@.skip(host.len() as int) =~= decimal(index as nat));
        lemma_decimal_value(index as nat);
    }
}

/// What a write says, in terms of the tables.
proof fn lemma_write_in_terms_of_tables(
    before: Tables,
    after: Tables,
    index: u64,
    content: Seq<char>,
    rows: Map<u64, Seq<char>>,
    times: Map<u64, u64>,
)
    requires
        wrote_entry(before, after, index, content),
        rows == journal_of(before).entries,
        times == journal_of(before).dates,
    ensures
        ({
            &&& forall|other: u64| rows.contains_key(other) ==> other < index
            &&& index == 0 || rows.contains_key((index - 1) as u64)
            &&& after.texts == before.texts.insert(
                "index_blog_list"@,
                rows.insert(index, content),
            )
            &&& after.numbers == before.numbers.insert(
                "index_date_list"@,
                times.insert(index, after.numbers["index_date_list"@][index]),
            )
            &&& exists|time: std::time::SystemTime|
                {
                    &&& call_ensures(std::time::SystemTime::now, (), time)
                    &&& #[trigger] moment_nanos(time) >= 0
                    &&& after.numbers["index_date_list"@][index] == moment_nanos(time)
                        / 1_000_000_000
                }
        }),
{
    let journal = journal_of(before);
    let now = choose|now: u64|
        is_clock_second(now) && journal_becomes(
            before,
            after,
            #[trigger] journal.with_entry(index, content, now),
        );
    lemma_newest_has_the_largest_index(journal);
    assert(after.numbers["index_date_list"@][index] == now);
    let time = choose|time: std::time::SystemTime|
        call_ensures(std::time::SystemTime::now, (), time) && #[trigger] is_unix_time(
            time,
            Ok(now),
        );
    assert(moment_nanos(time) >= 0);
}

/// To push stores exactly the text that was given, under the index after the largest one in use,
/// with a time that the clock gave, and changes nothing else. If it fails before the commit, or
/// there is no index left, it changes nothing.
pub proof fn lemma_push_local_stores_the_text(
    db: &mut redb::Database,
    content: String,
    result: Result<Option<u64>, AppError>,
    rows: Map<u64, Seq<char>>,
    times: Map<u64, u64>,
)
    requires
        call_ensures(push_local, (db, content), result),
        rows == if committed_texts(*old(db)).contains_key("index_blog_list"@) {
            committed_texts(*old(db))["index_blog_list"@]
        } else {
            Map::empty()
        },
        times == if committed_numbers(*old(db)).contains_key("index_date_list"@) {
            committed_numbers(*old(db))["index_date_list"@]
        } else {
            Map::empty()
        },
    ensures
        ({
            let (texts, numbers) = (committed_texts(*old(db)), committed_numbers(*old(db)));
            match result {
                Ok(Some(index)) => {
                    &&& forall|other: u64| rows.contains_key(other) ==> other < index
                    &&& index == 0 || rows.contains_key((index - 1) as u64)
                    &&& committed_texts(*final(db)) == texts.insert(
                        "index_blog_list"@,
                        rows.insert(index, content@),
                    )
                    &&& committed_numbers(*final(db)) == numbers.insert(
                        "index_date_list"@,
                        times.insert(
                            index,
                            committed_numbers(*final(db))["index_date_list"@][index],
                        ),
                    )
                    &&& exists|time: std::time::SystemTime|
                        {
                            &&& call_ensures(std::time::SystemTime::now, (), time)
                            &&& #[trigger] moment_nanos(time) >= 0
                            &&& committed_numbers(*final(db))["index_date_list"@][index]
                                == moment_nanos(time) / 1_000_000_000
                        }
                },
                Ok(None) => rows.contains_key(u64::MAX) && {
                    &&& committed_texts(*final(db)) == committed_texts(*old(db))
                    &&& committed_numbers(*final(db)) == committed_numbers(*old(db))
                    &&& committed_names(*final(db)) == committed_names(*old(db))
                },
                Err(error) => error is Commit || {
                    &&& committed_texts(*final(db)) == committed_texts(*old(db))
                    &&& committed_numbers(*final(db)) == committed_numbers(*old(db))
                    &&& committed_names(*final(db)) == committed_names(*old(db))
                },
            }
        }),
{
    lemma_newest_has_the_largest_index(journal_of(committed(*old(db))));
    if let Ok(Some(index)) = result {
        lemma_write_in_terms_of_tables(
            committed(*old(db)),
            committed(*final(db)),
            index,
            content@,
            rows,
            times,
        );
    }
}

/// A request to push that the password check lets pass stores exactly the text of the request,
/// under the index of the answer, which is the one after the largest in use, with a time that the
/// clock gave, and changes nothing else. One that the check refuses gets its words and changes
/// nothing.
pub proof fn lemma_push_stores_the_text(
    header: HeaderMap<HeaderValue>,
    db: &mut redb::Database,
    config: Config,
    request: ContentRequest,
    result: Result<Option<IndexReply>, AppError>,
    password: &str,
    checked: Result<(), AnyhowError>,
    rows: Map<u64, Seq<char>>,
    times: Map<u64, u64>,
)
    requires
        call_ensures(push, (header, db, &config, request), result),
        call_ensures(check, (header, password), checked),
        password@ == config.push_password@,
        rows == if committed_texts(*old(db)).contains_key("index_blog_list"@) {
            committed_texts(*old(db))["index_blog_list"@]
        } else {
            Map::empty()
        },
        times == if committed_numbers(*old(db)).contains_key("index_date_list"@) {
            committed_numbers(*old(db))["index_date_list"@]
        } else {
            Map::empty()
        },
    ensures
        ({
            let (texts, numbers) = (committed_texts(*old(db)), committed_numbers(*old(db)));
            match checked {
                Ok(()) => match result {
                    Ok(Some(reply)) => {
                        &&& reply.code == 0
                        &&& forall|other: u64| rows.contains_key(other) ==> other < reply.index
                        &&& reply.index == 0 || rows.contains_key((reply.index - 1) as u64)
                        &&& committed_texts(*final(db)) == texts.insert(
                            "index_blog_list"@,
                            rows.insert(reply.index, request.content@),
                        )
                        &&& committed_numbers(*final(db)) == numbers.insert(
                            "index_date_list"@,
                            times.insert(
                                reply.index,
                                committed_numbers(*final(db))["index_date_list"@][reply.index],
                            ),
                        )
                        &&& exists|time: std::time::SystemTime|
                            {
                                &&& call_ensures(std::time::SystemTime::now, (), time)
                                &&& #[trigger] moment_nanos(time) >= 0
                                &&& committed_numbers(*final(db))["index_date_list"@][reply.index]
                                    == moment_nanos(time) / 1_000_000_000
                            }
                    },
                    Ok(None) => rows.contains_key(u64::MAX) && {
                    &&& committed_texts(*final(db)) == committed_texts(*old(db))
                    &&& committed_numbers(*final(db)) == committed_numbers(*old(db))
                    &&& committed_names(*final(db)) == committed_names(*old(db))
                },
                    Err(error) => error is Commit || {
                    &&& committed_texts(*final(db)) == committed_texts(*old(db))
                    &&& committed_numbers(*final(db)) == committed_numbers(*old(db))
                    &&& committed_names(*final(db)) == committed_names(*old(db))
                },
                },
                Err(refusal) => {
                    &&& result matches Err(AppError::Internal(error)) && error.0@ == refusal.0@
                    &&& {
                    &&& committed_texts(*final(db)) == committed_texts(*old(db))
                    &&& committed_numbers(*final(db)) == committed_numbers(*old(db))
                    &&& committed_names(*final(db)) == committed_names(*old(db))
                }
                },
            }
        }),
{
    lemma_newest_has_the_largest_index(journal_of(committed(*old(db))));
    if let Ok(Some(reply)) = result {
        if checked is Ok {
            lemma_write_in_terms_of_tables(
                committed(*old(db)),
                committed(*final(db)),
                reply.index,
                request.content@,
                rows,
                times,
            );
        }
    }
}

/// What a pop says of an aligned log, in terms of the tables.
proof fn lemma_pop_in_terms_of_tables(
    before: Tables,
    after: Tables,
    record: Option<(u64, String)>,
    rows: Map<u64, Seq<char>>,
    times: Map<u64, u64>,
)
    requires
        is_pop_outcome(before, after, Ok(record)),
        rows == journal_of(before).entries,
        times == journal_of(before).dates,
    ensures
        ({
            match record {
                Some((index, content)) => {
                    &&& rows.contains_key(index) && rows[index] == content@
                    &&& forall|other: u64| rows.contains_key(other) ==> other <= index
                    &&& after.texts == before.texts.insert(
                        "index_blog_list"@,
                        rows.remove(index),
                    )
                    &&& rows.dom() == times.dom() ==> after.numbers == before.numbers.insert(
                        "index_date_list"@,
                        times.remove(index),
                    )
                },
                None => {
                    &&& forall|other: u64| !rows.contains_key(other)
                    &&& after.texts == before.texts.insert("index_blog_list"@, rows)
                    &&& rows.dom() == times.dom() ==> after.numbers == before.numbers.insert(
                        "index_date_list"@,
                        times,
                    )
                },
            }
        }),
{
    let journal = journal_of(before);
    lemma_newest_has_the_largest_index(journal);
    if journal.is_aligned() {
        lemma_pop_removes_the_newest(journal);
    }
}

/// To pop takes away the entry with the largest index, hands it back, and leaves every other entry
/// as it is; the times keep in step with an aligned log. On an empty log there is nothing to take.
/// If it fails before the commit it changes nothing.
pub proof fn lemma_pop_local_takes_the_newest_entry(
    db: &mut redb::Database,
    result: Result<Option<(u64, String)>, AppError>,
    rows: Map<u64, Seq<char>>,
    times: Map<u64, u64>,
)
    requires
        call_ensures(pop_local, (db,), result),
        rows == if committed_texts(*old(db)).contains_key("index_blog_list"@) {
            committed_texts(*old(db))["index_blog_list"@]
        } else {
            Map::empty()
        },
        times == if committed_numbers(*old(db)).contains_key("index_date_list"@) {
            committed_numbers(*old(db))["index_date_list"@]
        } else {
            Map::empty()
        },
    ensures
        ({
            let (texts, numbers) = (committed_texts(*old(db)), committed_numbers(*old(db)));
            match result {
                Ok(record) => match record {
                    Some((index, content)) => {
                        &&& rows.contains_key(index) && rows[index] == content@
                        &&& forall|other: u64| rows.contains_key(other) ==> other <= index
                        &&& committed_texts(*final(db)) == texts.insert(
                            "index_blog_list"@,
                            rows.remove(index),
                        )
                        &&& rows.dom() == times.dom() ==> committed_numbers(*final(db))
                            == numbers.insert(
                            "index_date_list"@,
                            times.remove(index),
                        )
                    },
                    None => {
                        &&& forall|other: u64| !rows.contains_key(other)
                        &&& committed_texts(*final(db)) == texts.insert("index_blog_list"@, rows)
                        &&& rows.dom() == times.dom() ==> committed_numbers(*final(db))
                            == numbers.insert(
                            "index_date_list"@,
                            times,
                        )
                    },
                },
                Err(error) => error is Commit || {
                    &&& committed_texts(*final(db)) == committed_texts(*old(db))
                    &&& committed_numbers(*final(db)) == committed_numbers(*old(db))
                    &&& committed_names(*final(db)) == committed_names(*old(db))
                },
            }
        }),
{
    if let Ok(record) = result {
        lemma_pop_in_terms_of_tables(
            committed(*old(db)),
            committed(*final(db)),
            record,
            rows,
            times,
        );
    }
}

/// A request to pop that the password check lets pass takes away the entry with the largest index,
/// hands it back, and leaves every other entry as it is; the times keep in step with an aligned
/// log. One that the check refuses gets its words and changes nothing.
pub proof fn lemma_pop_takes_the_newest_entry(
    header: HeaderMap<HeaderValue>,
    db: &mut redb::Database,
    config: Config,
    result: Result<StatusReply, AppError>,
    password: &str,
    checked: Result<(), AnyhowError>,
    rows: Map<u64, Seq<char>>,
    times: Map<u64, u64>,
)
    requires
        call_ensures(pop, (header, db, &config), result),
        call_ensures(check, (header, password), checked),
        password@ == config.push_password@,
        rows == if committed_texts(*old(db)).contains_key("index_blog_list"@) {
            committed_texts(*old(db))["index_blog_list"@]
        } else {
            Map::empty()
        },
        times == if committed_numbers(*old(db)).contains_key("index_date_list"@) {
            committed_numbers(*old(db))["index_date_list"@]
        } else {
            Map::empty()
        },
    ensures
        ({
            let (texts, numbers) = (committed_texts(*old(db)), committed_numbers(*old(db)));
            match checked {
                Ok(()) => match result {
                    Ok(reply) => reply.status == 0 && match reply.record {
                        Some((index, content)) => {
                            &&& rows.contains_key(index) && rows[index] == content@
                            &&& forall|other: u64| rows.contains_key(other) ==> other <= index
                            &&& committed_texts(*final(db)) == texts.insert(
                                "index_blog_list"@,
                                rows.remove(index),
                            )
                            &&& rows.dom() == times.dom() ==> committed_numbers(*final(db))
                            == numbers.insert(
                                "index_date_list"@,
                                times.remove(index),
                            )
                        },
                        None => {
                            &&& forall|other: u64| !rows.contains_key(other)
                            &&& committed_texts(*final(db)) == texts.insert(
                                "index_blog_list"@,
                                rows,
                            )
                            &&& rows.dom() == times.dom() ==> committed_numbers(*final(db))
                            == numbers.insert(
                                "index_date_list"@,
                                times,
                            )
                        },
                    },
                    Err(error) => error is Commit || {
                    &&& committed_texts(*final(db)) == committed_texts(*old(db))
                    &&& committed_numbers(*final(db)) == committed_numbers(*old(db))
                    &&& committed_names(*final(db)) == committed_names(*old(db))
                },
                },
                Err(refusal) => {
                    &&& result matches Err(AppError::Internal(error)) && error.0@ == refusal.0@
                    &&& {
                    &&& committed_texts(*final(db)) == committed_texts(*old(db))
                    &&& committed_numbers(*final(db)) == committed_numbers(*old(db))
                    &&& committed_names(*final(db)) == committed_names(*old(db))
                }
                },
            }
        }),
{
    if let Ok(reply) = result {
        if checked is Ok {
            lemma_pop_in_terms_of_tables(
                committed(*old(db)),
                committed(*final(db)),
                reply.record,
                rows,
                times,
            );
        }
    }
}

/// To remove takes away the entry with the given index and its time, and nothing else. If it fails
/// with other words than those of a failed commit, it changes nothing.
pub proof fn lemma_remove_local_takes_one_entry(
    db: &mut redb::Database,
    index: u64,
    result: Result<(), AnyhowError>,
    rows: Map<u64, Seq<char>>,
    times: Map<u64, u64>,
)
    requires
        call_ensures(remove_local, (db, index), result),
        rows == if committed_texts(*old(db)).contains_key("index_blog_list"@) {
            committed_texts(*old(db))["index_blog_list"@]
        } else {
            Map::empty()
        },
        times == if committed_numbers(*old(db)).contains_key("index_date_list"@) {
            committed_numbers(*old(db))["index_date_list"@]
        } else {
            Map::empty()
        },
    ensures
        ({
            let (texts, numbers) = (committed_texts(*old(db)), committed_numbers(*old(db)));
            match result {
                Ok(()) => {
                    &&& committed_texts(*final(db)) == texts.insert(
                        "index_blog_list"@,
                        rows.remove(index),
                    )
                    &&& committed_numbers(*final(db)) == numbers.insert(
                        "index_date_list"@,
                        times.remove(index),
                    )
                },
                Err(error) => is_commit_text(error.0) || {
                    &&& committed_texts(*final(db)) == committed_texts(*old(db))
                    &&& committed_numbers(*final(db)) == committed_numbers(*old(db))
                    &&& committed_names(*final(db)) == committed_names(*old(db))
                },
            }
        }),
{
}

/// A request to remove that the password check lets pass takes away the entry with the given index
/// and its time, and nothing else, and is answered with that index. One that the check refuses gets
/// its words and changes nothing.
pub proof fn lemma_remove_takes_the_given_entry(
    header: HeaderMap<HeaderValue>,
    db: &mut redb::Database,
    config: Config,
    request: RemoveRequest,
    result: Result<IndexReply, AnyhowError>,
    password: &str,
    checked: Result<(), AnyhowError>,
    rows: Map<u64, Seq<char>>,
    times: Map<u64, u64>,
)
    requires
        call_ensures(remove, (header, db, &config, request), result),
        call_ensures(check, (header, password), checked),
        password@ == config.push_password@,
        rows == if committed_texts(*old(db)).contains_key("index_blog_list"@) {
            committed_texts(*old(db))["index_blog_list"@]
        } else {
            Map::empty()
        },
        times == if committed_numbers(*old(db)).contains_key("index_date_list"@) {
            committed_numbers(*old(db))["index_date_list"@]
        } else {
            Map::empty()
        },
    ensures
        ({
            let (texts, numbers) = (committed_texts(*old(db)), committed_numbers(*old(db)));
            match checked {
                Ok(()) => match result {
                    Ok(reply) => {
                        &&& reply.code == 0 && reply.index == request.index
                        &&& committed_texts(*final(db)) == texts.insert(
                            "index_blog_list"@,
                            rows.remove(request.index),
                        )
                        &&& committed_numbers(*final(db)) == numbers.insert(
                            "index_date_list"@,
                            times.remove(request.index),
                        )
                    },
                    Err(error) => is_commit_text(error.0) || {
                    &&& committed_texts(*final(db)) == committed_texts(*old(db))
                    &&& committed_numbers(*final(db)) == committed_numbers(*old(db))
                    &&& committed_names(*final(db)) == committed_names(*old(db))
                },
                },
                Err(refusal) => {
                    &&& result matches Err(error) && error.0@ == refusal.0@
                    &&& {
                    &&& committed_texts(*final(db)) == committed_texts(*old(db))
                    &&& committed_numbers(*final(db)) == committed_numbers(*old(db))
                    &&& committed_names(*final(db)) == committed_names(*old(db))
                }
                },
            }
        }),
{
}

/// After a request to push that was answered with an index, the page of that index has the text of
/// the request, and every other page is what it was before.
pub proof fn lemma_pushed_text_is_served(
    header: HeaderMap<HeaderValue>,
    db: &mut redb::Database,
    config: Config,
    request: ContentRequest,
    reply: IndexReply,
    after: redb::Database,
    index: u64,
    earlier: Result<ContentPage, AppError>,
    later: Result<ContentPage, AppError>,
)
    requires
        call_ensures(push, (header, db, &config, request), Ok(Some(reply))),
        after == *final(db),
        call_ensures(get_content, (&*old(db), &config, index), earlier),
        call_ensures(get_content, (&after, &config, index), later),
    ensures
        index == reply.index ==> {
            &&& !(earlier is Ok) && !(later matches Err(AppError::NotFound))
            &&& later matches Ok(page) ==> page.content@ == request.content@
        },
        index != reply.index ==> {
            &&& earlier is Ok ==> !(later matches Err(AppError::NotFound))
            &&& later is Ok ==> !(earlier matches Err(AppError::NotFound))
            &&& earlier matches Ok(old_page) ==> (later matches Ok(new_page) ==> old_page.content@
                == new_page.content@)
        },
{
    let before = committed(*old(db));
    lemma_write_in_terms_of_tables(
        before,
        committed(*final(db)),
        reply.index,
        request.content@,
        journal_of(before).entries,
        journal_of(before).dates,
    );
}

/// After a request to pop that succeeded, the page of the entry that was handed back is gone, it
/// had the text that was handed back, and every other page is what it was before.
pub proof fn lemma_popped_page_is_gone(
    header: HeaderMap<HeaderValue>,
    db: &mut redb::Database,
    config: Config,
    reply: StatusReply,
    after: redb::Database,
    index: u64,
    earlier: Result<ContentPage, AppError>,
    later: Result<ContentPage, AppError>,
)
    requires
        call_ensures(pop, (header, db, &config), Ok(reply)),
        after == *final(db),
        call_ensures(get_content, (&*old(db), &config, index), earlier),
        call_ensures(get_content, (&after, &config, index), later),
    ensures
        match reply.record {
            Some((popped, content)) => {
                &&& index == popped ==> !(later is Ok)
                &&& index == popped ==> (earlier matches Ok(page) ==> page.content@ == content@)
                &&& index > popped ==> !(earlier is Ok) && !(later is Ok)
                &&& index != popped ==> {
                    &&& earlier is Ok ==> !(later matches Err(AppError::NotFound))
                    &&& later is Ok ==> !(earlier matches Err(AppError::NotFound))
                    &&& earlier matches Ok(old_page) ==> (later matches Ok(new_page)
                        ==> old_page.content@ == new_page.content@)
                }
            },
            None => !(earlier is Ok) && !(later is Ok),
        },
{
    let before = committed(*old(db));
    lemma_pop_in_terms_of_tables(
        before,
        committed(*final(db)),
        reply.record,
        journal_of(before).entries,
        journal_of(before).dates,
    );
}

/// After a request to remove that succeeded, the page of that index is gone, and every other page
/// is what it was before.
pub proof fn lemma_removed_page_is_gone(
    header: HeaderMap<HeaderValue>,
    db: &mut redb::Database,
    config: Config,
    request: RemoveRequest,
    reply: IndexReply,
    after: redb::Database,
    index: u64,
    earlier: Result<ContentPage, AppError>,
    later: Result<ContentPage, AppError>,
)
    requires
        call_ensures(remove, (header, db, &config, request), Ok(reply)),
        after == *final(db),
        call_ensures(get_content, (&*old(db), &config, index), earlier),
        call_ensures(get_content, (&after, &config, index), later),
    ensures
        index == request.index ==> !(later is Ok),
        index != request.index ==> {
            &&& earlier is Ok ==> !(later matches Err(AppError::NotFound))
            &&& later is Ok ==> !(earlier matches Err(AppError::NotFound))
            &&& earlier matches Ok(old_page) ==> (later matches Ok(new_page) ==> old_page.content@
                == new_page.content@)
        },
{
}

/// A home page that was looked up has the configured title and one line for each entry of the page,
/// by descending index: `keys` are these indices. The page numbered `n`, or one if no number is
/// given, has the indices from `(n - 1) * page_content` up to but not including
/// `n * page_content`.
///
/// A line has the first chunk of the text, with two dots if there are more chunks, and the stored
/// time, read as a signed number of seconds, as a date with an offset that the time zone of the
/// machine gave for that second.
pub proof fn lemma_home_shows_the_page(
    db: redb::Database,
    config: Config,
    page: Option<u64>,
    shown: HomePage,
    n: int,
    start: int,
    end: int,
    rows: Map<u64, Seq<char>>,
    times: Map<u64, u64>,
) -> ((keys, seconds, offsets): (Seq<u64>, Seq<i64>, Seq<i32>))
    requires
        call_ensures(home, (&db, &config, page), Ok(shown)),
        shown.fault is None,
        n == match page {
            Some(page) => page as int,
            None => 1,
        },
        start == (n - 1) * config.page_content,
        end == n * config.page_content,
        rows == committed_texts(db)["index_blog_list"@],
        times == committed_numbers(db)["index_date_list"@],
    ensures
        committed_texts(db).contains_key("index_blog_list"@),
        committed_numbers(db).contains_key("index_date_list"@),
        shown.title@ == config.title@,
        keys.len() == shown.contents@.len(),
        forall|i: int, j: int| 0 <= i < j < keys.len() ==> keys[i] > keys[j],
        forall|key: u64|
            #![trigger keys.contains(key)]
            #![trigger rows.contains_key(key)]
            keys.contains(key) <==> rows.contains_key(key) && start <= key < end,
        forall|i: int|
            0 <= i < keys.len() ==> {
                let line = #[trigger] shown.contents@[i];
                let chunks = text_chunks(rows[keys[i]], config.split_length as usize);
                &&& chunks.len() == 0 ==> line.0@.len() == 0
                &&& chunks.len() == 1 ==> line.0@ == chunks[0]
                &&& chunks.len() > 1 ==> line.0@ == chunks[0] + ".."@
                &&& line.0@.len() <= config.split_length as usize + 2
            },
        forall|i: int|
            0 <= i < keys.len() ==> {
                &&& times.contains_key(#[trigger] keys[i])
                &&& seconds[i] == times[keys[i]] || seconds[i] == times[keys[i]]
                    - 0x1_0000_0000_0000_0000
                &&& -377705023201 <= seconds[i] <= 253402207200
            },
        forall|i: int|
            0 <= i < keys.len() ==> #[trigger] is_zone_offset(seconds[i], offsets[i]),
        forall|i: int|
            0 <= i < keys.len() ==> (#[trigger] shown.contents@[i]).1@ == strftime_text(
                seconds[i],
                offsets[i],
                "%Y-%m-%d %H:%M:%S"@,
            ),
{
    let listing = choose|listing: Seq<(u64, Seq<char>)>| #[trigger]
        is_listing(rows, start, end, listing) && shows_rows(
            shown.contents@,
            listing,
            times,
            config.split_length,
        );
    let keys = Seq::new(listing.len(), |i: int| listing[listing.len() - 1 - i].0);
    assert forall|i: int, j: int| 0 <= i < j < keys.len() implies keys[i] > keys[j] by {
        assert(listing[listing.len() - 1 - j].0 < listing[listing.len() - 1 - i].0);
    }
    assert forall|key: u64|
        #![trigger keys.contains(key)]
        #![trigger rows.contains_key(key)]
        keys.contains(key) <==> rows.contains_key(key) && start <= key < end by {
        if keys.contains(key) {
            let i = choose|i: int| 0 <= i < keys.len() && keys[i] == key;
            assert(listing[listing.len() - 1 - i].0 == key);
        }
        if rows.contains_key(key) && start <= key < end {
            let k = choose|k: int| 0 <= k < listing.len() && (#[trigger] listing[k]).0 == key;
            assert(keys[listing.len() - 1 - k] == key);
        }
    }
    assert forall|i: int| 0 <= i < keys.len() implies {
        let line = #[trigger] shown.contents@[i];
        let chunks = text_chunks(rows[keys[i]], config.split_length as usize);
        &&& chunks.len() == 0 ==> line.0@.len() == 0
        &&& chunks.len() == 1 ==> line.0@ == chunks[0]
        &&& chunks.len() > 1 ==> line.0@ == chunks[0] + ".."@
        &&& line.0@.len() <= config.split_length as usize + 2
    } by {
        let row = listing[listing.len() - 1 - i];
        assert(shows_entry(shown.contents@[i], row, times, config.split_length));
        assert(row.1 == rows[row.0]);
    }
    let seconds = Seq::new(keys.len(), |i: int| signed_second(times[keys[i]]) as i64);
    let offsets = Seq::new(
        keys.len(),
        |i: int|
            choose|offset: i32|
                is_zone_offset(seconds[i], offset) && shown.contents@[i].1@
                    == #[trigger] strftime_text(seconds[i], offset, DATE_FORMAT@),
    );
    assert forall|i: int| 0 <= i < keys.len() implies {
        &&& times.contains_key(#[trigger] keys[i])
        &&& seconds[i] == times[keys[i]] || seconds[i] == times[keys[i]] - 0x1_0000_0000_0000_0000
        &&& -377705023201 <= seconds[i] <= 253402207200
        &&& is_zone_offset(seconds[i], offsets[i])
        &&& shown.contents@[i].1@ == strftime_text(
            seconds[i],
            offsets[i],
            "%Y-%m-%d %H:%M:%S"@,
        )
    } by {
        let row = listing[listing.len() - 1 - i];
        let line = shown.contents@[i];
        assert(shows_entry(line, row, times, config.split_length));
        assert(is_date_of(line.1@, times[row.0]));
        let second = signed_second(times[row.0]) as i64;
        assert(seconds[i] == second);
        let offset = choose|offset: i32|
            is_offset(offset as int) && is_zone_offset(second, offset) && line.1@
                == #[trigger] strftime_text(second, offset, DATE_FORMAT@);
        assert(is_zone_offset(seconds[i], offset) && line.1@ == strftime_text(
            seconds[i],
            offset,
            DATE_FORMAT@,
        ));
    }
    assert forall|i: int| 0 <= i < keys.len() implies (#[trigger] shown.contents@[i]).1@
        == strftime_text(seconds[i], offsets[i], "%Y-%m-%d %H:%M:%S"@) by {
        assert(times.contains_key(keys[i]));
    }
    (keys, seconds, offsets)
}

/// A home page that does not come out fails for the storage, for a table that cannot be opened, or
/// for an entry of that page without a time that is a date: the error then names the index of an
/// entry without a time. Without the table of the texts the error says so.
pub proof fn lemma_home_fails_for_a_reason(
    db: redb::Database,
    config: Config,
    page: Option<u64>,
    error: AppError,
    n: int,
    rows: Map<u64, Seq<char>>,
    times: Map<u64, u64>,
)
    requires
        call_ensures(home, (&db, &config, page), Err(error)),
        n == match page {
            Some(page) => page as int,
            None => 1,
        },
        rows == committed_texts(db)["index_blog_list"@],
        times == committed_numbers(db)["index_date_list"@],
    ensures
        error is Table || error is Storage || error is Transaction || error is Internal,
        !committed_names(db).contains("index_blog_list"@) && !(error is Transaction) ==> (
        error matches AppError::Table(text) && (text@ == "Table '"@ + "index_blog_list"@
            + "' does not exist"@ || is_storage_text(text))),
        error matches AppError::Internal(inner) ==> exists|key: u64|
            {
                &&& #[trigger] rows.contains_key(key)
                &&& (n - 1) * config.page_content <= key < n * config.page_content
                &&& !times.contains_key(key) ==> {
                    let words = "Missing date for index "@;
                    let id = inner.0@.skip(words.len() as int);
                    &&& inner.0@ == words + id
                    &&& forall|i: int| 0 <= i < id.len() ==> '0' <= #[trigger] id[i] <= '9'
                    &&& id.fold_left(
                        0int,
                        |value: int, c: char| 10 * value + (c as int - '0' as int),
                    ) == key
                }
                &&& times.contains_key(key) ==> {
                    &&& "Failed to convert timestemp to date: "@.is_prefix_of(inner.0@)
                    &&& 253402207200 < times[key] < 0x1_0000_0000_0000_0000 - 377705023201
                }
            },
{
    if let AppError::Internal(inner) = error {
        let start = (n - 1) * config.page_content;
        let end = n * config.page_content;
        let journal = journal_of(committed(db));
        assert(has_bad_entry(journal, start, end, error));
        let key = choose|key: u64|
            {
                &&& #[trigger] journal.entries.contains_key(key)
                &&& start <= key < end
                &&& is_row_error(error, (key, journal.entries[key]), journal.dates)
            };
        assert(rows.contains_key(key));
        if !times.contains_key(key) {
            let words = "Missing date for index "@;
            assert(inner.0@.skip(words.len() as int) =~= decimal(key as nat));
            lemma_decimal_value(key as nat);
        } else {
            let words = "Failed to convert timestemp to date: "@;
            assert(inner.0@.subrange(0, words.len() as int) =~= words);
        }
    }
}

/// A date that comes out is that of the stored time, read as a signed number, with an offset that
/// the time zone of the machine gave for that second. A time comes out as a date exactly if jiff
/// can represent it.
pub proof fn lemma_local_date_is_in_the_zone(time: u64, result: Result<String, AppError>)
    requires
        call_ensures(local_date, (time,), result),
    ensures
        match result {
            Ok(text) => exists|second: i64, offset: i32|
                {
                    &&& second == time || second == time - 0x1_0000_0000_0000_0000
                    &&& -377705023201 <= second <= 253402207200
                    &&& -93599 <= offset <= 93599
                    &&& is_zone_offset(second, offset)
                    &&& text@ == #[trigger] strftime_text(second, offset, "%Y-%m-%d %H:%M:%S"@)
                },
            Err(error) => {
                &&& error matches AppError::Internal(inner)
                    && "Failed to convert timestemp to date: "@.is_prefix_of(inner.0@)
                &&& 253402207200 < time < 0x1_0000_0000_0000_0000 - 377705023201
            },
        },
{
    if let Err(AppError::Internal(inner)) = result {
        let words = "Failed to convert timestemp to date: "@;
        assert(inner.0@.subrange(0, words.len() as int) =~= words);
    }
}

/// A date is written year first, to the second.
pub proof fn lemma_date_at_has_the_format(second: i64, offset: i32, text: String)
    requires
        call_ensures(date_at, (second, offset), text),
    ensures
        text@ == strftime_text(second, offset, "%Y-%m-%d %H:%M:%S"@),
{
}

/// A moment is counted in whole seconds; one before 1970 is an error.
pub proof fn lemma_seconds_at_counts_whole_seconds(
    time: std::time::SystemTime,
    result: Result<u64, AppError>,
)
    requires
        call_ensures(seconds_at, (time,), result),
    ensures
        match result {
            Ok(seconds) => seconds * 1_000_000_000 <= moment_nanos(time) < (seconds + 1)
                * 1_000_000_000,
            Err(error) => moment_nanos(time) < 0 && (error matches AppError::Internal(inner)
                && "Failed to convert timestemp to date: "@.is_prefix_of(inner.0@)),
        },
{
    if let Err(AppError::Internal(inner)) = result {
        let words = "Failed to convert timestemp to date: "@;
        assert(inner.0@.subrange(0, words.len() as int) =~= words);
    }
}

/// A preview is the first chunk, with two dots if there are more, and at most two characters longer
/// than asked.
pub proof fn lemma_preview_is_the_first_chunk(content: &str, split_length: u64, text: String)
    requires
        call_ensures(preview, (content, split_length), text),
    ensures
        ({
            let chunks = text_chunks(content@, split_length as usize);
            &&& chunks.len() == 0 ==> text@.len() == 0
            &&& chunks.len() == 1 ==> text@ == chunks[0]
            &&& chunks.len() > 1 ==> text@ == chunks[0] + ".."@
            &&& text@.len() <= split_length as usize + 2
        }),
{
}

/// The same, of chunks at hand.
pub proof fn lemma_preview_of_is_the_first_chunk(chunks: Vec<String>, text: String)
    requires
        call_ensures(preview_of, (&chunks,), text),
    ensures
        chunks@.len() == 0 ==> text@.len() == 0,
        chunks@.len() == 1 ==> text@ == chunks@[0]@,
        chunks@.len() > 1 ==> text@ == chunks@[0]@ + ".."@,
{
}

/// A page has `page_content` indices, and as many lie before it as the pages before it have. It can
/// be shown exactly if its number is not zero and its indices are in range.
pub proof fn lemma_page_range_counts_pages(
    page: Option<u64>,
    page_content: u64,
    n: int,
    exists_page: bool,
    range: (u64, u64),
)
    requires
        call_ensures(has_page, (page, page_content), exists_page),
        call_ensures(page_range, (page, page_content), range),
        n == match page {
            Some(page) => page as int,
            None => 1,
        },
    ensures
        exists_page <==> n >= 1 && n * page_content <= u64::MAX,
        range.0 == (n - 1) * page_content,
        range.1 - range.0 == page_content,
{
    assert((n - 1) * page_content + page_content == n * page_content) by (nonlinear_arith);
}

/// The index after the largest one in use is one more, and zero comes first.
pub proof fn lemma_index_after_counts_up(last: Option<u64>, index: u64)
    requires
        call_ensures(index_after, (last,), index),
    ensures
        last is None <==> index == 0,
        last matches Some(last) ==> index - last == 1,
{
}

/// Where the text without its leading blanks begins.
proof fn lemma_trim_start_bound(text: Seq<char>) -> (start: int)
    ensures
        0 <= start <= text.len(),
        trim_start(text) == text.skip(start),
        forall|i: int| 0 <= i < start ==> text[i] == ' ' || text[i] == '\t',
        start < text.len() ==> text[start] != ' ' && text[start] != '\t',
    decreases text.len(),
{
    if text.len() > 0 && is_blank(text.first()) {
        let rest = text.drop_first();
        let start = lemma_trim_start_bound(rest);
        assert(rest.skip(start) =~= text.skip(start + 1));
        assert forall|i: int| 0 <= i < start + 1 implies text[i] == ' ' || text[i] == '\t' by {
            if i > 0 {
                assert(rest[i - 1] == text[i]);
            }
        }
        if start < rest.len() {
            assert(rest[start] == text[start + 1]);
        }
        start + 1
    } else {
        assert(text.skip(0) =~= text);
        0
    }
}

/// Where the text without its trailing blanks ends.
proof fn lemma_trim_end_bound(text: Seq<char>) -> (end: int)
    ensures
        0 <= end <= text.len(),
        trim_end(text) == text.take(end),
        forall|i: int| end <= i < text.len() ==> text[i] == ' ' || text[i] == '\t',
        end > 0 ==> text[end - 1] != ' ' && text[end - 1] != '\t',
    decreases text.len(),
{
    if text.len() > 0 && is_blank(text.last()) {
        let rest = text.drop_last();
        let end = lemma_trim_end_bound(rest);
        assert(rest.take(end) =~= text.take(end));
        assert forall|i: int| end <= i < text.len() implies text[i] == ' ' || text[i] == '\t' by {
            if i < rest.len() {
                assert(rest[i] == text[i]);
            }
        }
        end
    } else {
        assert(text.take(text.len() as int) =~= text);
        text.len() as int
    }
}

/// What is left of a text when its blanks are trimmed is the part between the blanks.
proof fn lemma_trimmed_part(text: Seq<char>, token: Seq<char>)
    ensures
        trim(text) == token <==> exists|start: int, end: int|
            #![trigger text.subrange(start, end)]
            {
                &&& 0 <= start <= end <= text.len()
                &&& text.subrange(start, end) == token
                &&& forall|i: int|
                    0 <= i < start || end <= i < text.len() ==> text[i] == ' ' || text[i] == '\t'
                &&& start < end ==> text[start] != ' ' && text[start] != '\t' && text[end - 1]
                    != ' ' && text[end - 1] != '\t'
            },
{
    let a = lemma_trim_start_bound(text);
    let rest = text.skip(a);
    let b = lemma_trim_end_bound(rest);
    assert(trim(text) == rest.take(b));
    assert(rest.take(b) =~= text.subrange(a, a + b));
    assert forall|i: int| 0 <= i < a || a + b <= i < text.len() implies text[i] == ' ' || text[i]
        == '\t' by {
        if i >= a + b {
            assert(rest[i - a] == text[i]);
        }
    }
    if b > 0 {
        assert(rest[b - 1] == text[a + b - 1]);
    }
    if exists|start: int, end: int|
        #![trigger text.subrange(start, end)]
        {
            &&& 0 <= start <= end <= text.len()
            &&& text.subrange(start, end) == token
            &&& forall|i: int|
                0 <= i < start || end <= i < text.len() ==> text[i] == ' ' || text[i] == '\t'
            &&& start < end ==> text[start] != ' ' && text[start] != '\t' && text[end - 1] != ' '
                && text[end - 1] != '\t'
        } {
        let (start, end) = choose|start: int, end: int|
            #![trigger text.subrange(start, end)]
            {
                &&& 0 <= start <= end <= text.len()
                &&& text.subrange(start, end) == token
                &&& forall|i: int|
                    0 <= i < start || end <= i < text.len() ==> text[i] == ' ' || text[i] == '\t'
                &&& start < end ==> text[start] != ' ' && text[start] != '\t' && text[end - 1]
                    != ' ' && text[end - 1] != '\t'
            };
        if b > 0 {
            assert(text[a] != ' ' && text[a] != '\t');
            assert(start <= a < end);
            assert(start == a);
            assert(end == a + b);
        } else {
            assert(start == end);
        }
        assert(text.subrange(start, end) =~= text.subrange(a, a + b));
    }
}

/// A text presents the password exactly if it is `Bearer `, then blanks, then the password, then
/// blanks, where the password itself neither begins nor ends with a blank.
pub proof fn lemma_accepts_only_the_password(
    authorization: Option<&str>,
    password: &str,
    accepted: bool,
)
    requires
        call_ensures(accepts, (authorization, password), accepted),
    ensures
        accepted <==> (authorization matches Some(text) && {
            let rest = text@.skip("Bearer "@.len() as int);
            &&& "Bearer "@.is_prefix_of(text@)
            &&& exists|start: int, end: int|
                #![trigger rest.subrange(start, end)]
                {
                    &&& 0 <= start <= end <= rest.len()
                    &&& rest.subrange(start, end) == password@
                    &&& forall|i: int|
                        0 <= i < start || end <= i < rest.len() ==> rest[i] == ' ' || rest[i]
                            == '\t'
                    &&& start < end ==> rest[start] != ' ' && rest[start] != '\t' && rest[end - 1]
                        != ' ' && rest[end - 1] != '\t'
                }
        }),
{
    if let Some(text) = authorization {
        lemma_trimmed_part(text@.skip("Bearer "@.len() as int), password@);
    }
}

/// A request passes exactly if the first value of its `authorization` field is visible ASCII and is
/// `Bearer `, then blanks, then the password, then blanks, where the password itself neither begins
/// nor ends with a blank. Any other request is refused in the same words.
pub proof fn lemma_check_lets_only_the_password_pass(
    header: HeaderMap<HeaderValue>,
    password: &str,
    result: Result<(), AnyhowError>,
)
    requires
        call_ensures(check, (header, password), result),
    ensures
        result matches Err(error) ==> error.0@ == "Wrong password!"@,
        result is Ok <==> header_fields(header).contains_key("authorization"@) && {
            let value = header_fields(header)["authorization"@][0];
            let text = value.map_values(|byte: u8| byte as char);
            let rest = text.skip("Bearer "@.len() as int);
            &&& forall|i: int|
                0 <= i < value.len() ==> 32 <= #[trigger] value[i] < 127 || value[i] == 9
            &&& "Bearer "@.is_prefix_of(text)
            &&& exists|start: int, end: int|
                #![trigger rest.subrange(start, end)]
                {
                    &&& 0 <= start <= end <= rest.len()
                    &&& rest.subrange(start, end) == password@
                    &&& forall|i: int|
                        0 <= i < start || end <= i < rest.len() ==> rest[i] == ' ' || rest[i]
                            == '\t'
                    &&& start < end ==> rest[start] != ' ' && rest[start] != '\t' && rest[end - 1]
                        != ' ' && rest[end - 1] != '\t'
                }
        },
{
    let value = header_fields(header)["authorization"@][0];
    let text = value.map_values(|byte: u8| byte as char);
    lemma_trimmed_part(text.skip("Bearer "@.len() as int), password@);
    assert(chars_of(value) =~= text);
}

/// What a client presents for its password is accepted for that password and for no other, if the
/// password neither begins nor ends with a blank.
pub proof fn lemma_bearer_presents_its_password(
    sent: &str,
    value: String,
    text: &str,
    password: &str,
    accepted: bool,
)
    requires
        call_ensures(bearer, (sent,), value),
        text@ == value@,
        call_ensures(accepts, (Some(text), password), accepted),
        sent@.len() > 0 ==> sent@.first() != ' ' && sent@.first() != '\t' && sent@.last() != ' '
            && sent@.last() != '\t',
    ensures
        value@ == "Bearer "@ + sent@,
        accepted <==> sent@ == password@,
{
    let rest = text@.skip("Bearer "@.len() as int);
    assert(rest =~= sent@);
    assert(("Bearer "@ + sent@).subrange(0, "Bearer "@.len() as int) =~= "Bearer "@);
    assert(trim(sent@) == sent@);
}

/// What each error says.
pub proof fn lemma_messages_say_what_failed(error: AppError, text: String)
    requires
        call_ensures(AppError::message, (&error,), text),
    ensures
        text@ == match error {
            AppError::Unauthorized => "Authentication failed: Invalid Bearer token"@,
            AppError::DatabaseLocked => "Database is currently locked by another process"@,
            AppError::NotFound => "Resource not found"@,
            AppError::Database(DatabaseFault::AlreadyOpen) => "Database integrity error: "@
                + "Database already open. Cannot acquire lock."@,
            AppError::Database(DatabaseFault::Other(inner)) => "Database integrity error: "@
                + inner@,
            AppError::Table(inner) => "Table error: "@ + inner@,
            AppError::Transaction(inner) => "Storage transaction failed: "@ + inner@,
            AppError::Network(inner) => "Network request failed: "@ + inner@,
            AppError::Io(inner) => "Configuration or IO failure: "@ + inner@,
            AppError::Template(inner) => "Template rendering failed: "@ + inner@,
            AppError::Internal(inner) => "Internal system error: "@ + inner.0@,
            AppError::Storage(inner) => "Storage error: "@ + inner@,
            AppError::Commit(inner) => "Commit error: "@ + inner@,
        },
{
}

/// Only three errors are answered with their own words; all others are answered alike.
pub proof fn lemma_answers_hide_what_failed(error: AppError, text: String, reply: ErrorReply)
    requires
        call_ensures(AppError::message, (&error,), text),
        call_ensures(AppError::into_response, (error,), reply),
    ensures
        reply.status == 401 <==> error is Unauthorized,
        reply.status == 404 <==> error is NotFound,
        reply.status == 423 <==> error == AppError::Database(DatabaseFault::AlreadyOpen),
        reply.status == 401 || reply.status == 404 || reply.status == 423 || reply.status == 500,
        reply.status != 500 ==> reply.error@ == text@,
        reply.status == 500 ==> reply.error@ == "An internal server error occurred"@,
{
}

/// An error of which only the words are known is answered with these words.
pub proof fn lemma_plain_error_is_answered_with_its_words(error: AnyhowError, reply: TextReply)
    requires
        call_ensures(AnyhowError::into_response, (error,), reply),
    ensures
        reply.status == 500,
        reply.body@ == error.0@,
{
}

/// The service is asked where and how it listens.
pub proof fn lemma_endpoints_have_their_paths(
    endpoint: Endpoint,
    method: Method,
    path: &'static str,
)
    requires
        call_ensures(Endpoint::method, (&endpoint,), method),
        call_ensures(Endpoint::path, (&endpoint,), path),
    ensures
        method == Method::Post <==> endpoint == Endpoint::Push || endpoint == Endpoint::Remove,
        path@ == match endpoint {
            Endpoint::Home => "/"@,
            Endpoint::Push => "/"@,
            Endpoint::Content => "/{id}"@,
            Endpoint::Remove => "/remove"@,
            Endpoint::Newest => "/newset"@,
            Endpoint::Pop => "/pop"@,
        },
{
}

/// If another process holds the database, a command is sent to the service under the configured
/// address, with the password and with all that the command says.
pub proof fn lemma_held_database_sends_the_command(
    command: Subcmd,
    fault: DatabaseFault,
    config: Config,
    fallback: Fallback,
)
    requires
        call_ensures(after_open_failure, (command, &fault, &config), fallback),
    ensures
        fallback is Remote <==> fault is AlreadyOpen && !(command is Serve),
        fallback is Ignore <==> !(fault is AlreadyOpen) && command is Remove,
        fallback matches Fallback::Remote(call) ==> {
            &&& call.authorization@ == "Bearer "@ + config.push_password@
            &&& match command {
                Subcmd::Push { content } => {
                    &&& call.method == Method::Post
                    &&& call.url@ == "http://"@ + config.url@
                    &&& call.body == Body::Content(content)
                },
                Subcmd::Pop => {
                    &&& call.method == Method::Get
                    &&& call.url@ == "http://"@ + config.url@ + "/pop"@
                    &&& call.body == Body::Empty
                },
                Subcmd::Remove { index } => {
                    &&& call.method == Method::Post
                    &&& call.url@ == "http://"@ + config.url@ + "/remove"@
                    &&& call.body == Body::Index(index)
                },
                Subcmd::Serve => false,
            }
        },
{
    reveal_strlit("/");
    reveal_strlit("/pop");
    reveal_strlit("/remove");
}

/// Within a transaction, to write stores exactly the text under the index after the largest one in
/// use, with a time that the clock gave, and changes nothing else.
pub proof fn lemma_write_table_stores_the_text(
    content: String,
    txn: &mut redb::WriteTransaction,
    index: u64,
    rows: Map<u64, Seq<char>>,
    times: Map<u64, u64>,
)
    requires
        call_ensures(write_table, (content, txn), Ok(index)) || call_ensures(
            try_write_table,
            (content, txn),
            Ok(Some(index)),
        ),
        rows == if pending_texts(*old(txn)).contains_key("index_blog_list"@) {
            pending_texts(*old(txn))["index_blog_list"@]
        } else {
            Map::empty()
        },
        times == if pending_numbers(*old(txn)).contains_key("index_date_list"@) {
            pending_numbers(*old(txn))["index_date_list"@]
        } else {
            Map::empty()
        },
    ensures
        forall|other: u64| rows.contains_key(other) ==> other < index,
        index == 0 || rows.contains_key((index - 1) as u64),
        pending_texts(*final(txn)) == pending_texts(*old(txn)).insert(
            "index_blog_list"@,
            rows.insert(index, content@),
        ),
        pending_numbers(*final(txn)) == pending_numbers(*old(txn)).insert(
            "index_date_list"@,
            times.insert(index, pending_numbers(*final(txn))["index_date_list"@][index]),
        ),
        exists|time: std::time::SystemTime|
            {
                &&& call_ensures(std::time::SystemTime::now, (), time)
                &&& #[trigger] moment_nanos(time) >= 0
                &&& pending_numbers(*final(txn))["index_date_list"@][index] == moment_nanos(time)
                    / 1_000_000_000
            },
{
    lemma_write_in_terms_of_tables(
        pending(*old(txn)),
        pending(*final(txn)),
        index,
        content@,
        rows,
        times,
    );
}

/// Within a transaction, to store puts the text and the time under the index, and changes nothing
/// else.
pub proof fn lemma_store_entry_puts_both(
    index: u64,
    content: String,
    now: u64,
    txn: &mut redb::WriteTransaction,
    rows: Map<u64, Seq<char>>,
    times: Map<u64, u64>,
)
    requires
        call_ensures(store_entry, (index, content, now, txn), Ok(())),
        rows == if pending_texts(*old(txn)).contains_key("index_blog_list"@) {
            pending_texts(*old(txn))["index_blog_list"@]
        } else {
            Map::empty()
        },
        times == if pending_numbers(*old(txn)).contains_key("index_date_list"@) {
            pending_numbers(*old(txn))["index_date_list"@]
        } else {
            Map::empty()
        },
    ensures
        pending_texts(*final(txn)) == pending_texts(*old(txn)).insert(
            "index_blog_list"@,
            rows.insert(index, content@),
        ),
        pending_numbers(*final(txn)) == pending_numbers(*old(txn)).insert(
            "index_date_list"@,
            times.insert(index, now),
        ),
{
}

/// Within a transaction, to pop takes away the entry with the largest index, hands it back, and
/// leaves every other entry as it is; the times keep in step with an aligned log.
pub proof fn lemma_pop_from_table_takes_the_newest_entry(
    txn: &mut redb::WriteTransaction,
    record: Option<(u64, String)>,
    rows: Map<u64, Seq<char>>,
    times: Map<u64, u64>,
)
    requires
        call_ensures(pop_from_table, (txn,), Ok(record)),
        rows == if pending_texts(*old(txn)).contains_key("index_blog_list"@) {
            pending_texts(*old(txn))["index_blog_list"@]
        } else {
            Map::empty()
        },
        times == if pending_numbers(*old(txn)).contains_key("index_date_list"@) {
            pending_numbers(*old(txn))["index_date_list"@]
        } else {
            Map::empty()
        },
    ensures
        match record {
            Some((index, content)) => {
                &&& rows.contains_key(index) && rows[index] == content@
                &&& forall|other: u64| rows.contains_key(other) ==> other <= index
                &&& pending_texts(*final(txn)) == pending_texts(*old(txn)).insert(
                    "index_blog_list"@,
                    rows.remove(index),
                )
                &&& rows.dom() == times.dom() ==> pending_numbers(*final(txn)) == pending_numbers(
                    *old(txn),
                ).insert("index_date_list"@, times.remove(index))
            },
            None => {
                &&& forall|other: u64| !rows.contains_key(other)
                &&& pending_texts(*final(txn)) == pending_texts(*old(txn)).insert(
                    "index_blog_list"@,
                    rows,
                )
            },
        },
{
    lemma_pop_in_terms_of_tables(pending(*old(txn)), pending(*final(txn)), record, rows, times);
}

/// Within a transaction, to remove takes away the entry with the given index and its time, and
/// nothing else.
pub proof fn lemma_remove_from_table_takes_one_entry(
    index: u64,
    txn: &mut redb::WriteTransaction,
    rows: Map<u64, Seq<char>>,
    times: Map<u64, u64>,
)
    requires
        call_ensures(remove_from_table, (index, txn), Ok(())),
        rows == if pending_texts(*old(txn)).contains_key("index_blog_list"@) {
            pending_texts(*old(txn))["index_blog_list"@]
        } else {
            Map::empty()
        },
        times == if pending_numbers(*old(txn)).contains_key("index_date_list"@) {
            pending_numbers(*old(txn))["index_date_list"@]
        } else {
            Map::empty()
        },
    ensures
        pending_texts(*final(txn)) == pending_texts(*old(txn)).insert(
            "index_blog_list"@,
            rows.remove(index),
        ),
        pending_numbers(*final(txn)) == pending_numbers(*old(txn)).insert(
            "index_date_list"@,
            times.remove(index),
        ),
{
}

/// The last index in a snapshot is the largest one in use; only a log without entries has none.
pub proof fn lemma_last_index_is_the_largest(read: redb::ReadTransaction, last: Option<u64>)
    requires
        call_ensures(get_last_index, (read,), Ok(last)),
    ensures
        snapshot_texts(read).contains_key("index_blog_list"@),
        ({
            let rows = snapshot_texts(read)["index_blog_list"@];
            match last {
                Some(last) => rows.contains_key(last) && forall|other: u64|
                    rows.contains_key(other) ==> other <= last,
                None => forall|other: u64| !rows.contains_key(other),
            }
        }),
{
    lemma_newest_has_the_largest_index(journal_of(snapshot(read)));
}

/// The address of an entry is the configured host, a slash and a number whose value is the index.
pub proof fn lemma_address_is_read_back(
    index: Option<u64>,
    config: Config,
    result: Result<String, AppError>,
)
    requires
        call_ensures(location_of, (index, &config), result),
    ensures
        match index {
            Some(index) => result matches Ok(location) && {
                let host = "https://"@ + config.url@ + "/"@;
                let id = location@.skip(host.len() as int);
                &&& location@ == host + id
                &&& id.len() > 0
                &&& forall|i: int| 0 <= i < id.len() ==> '0' <= #[trigger] id[i] <= '9'
                &&& id[0] == '0' ==> id.len() == 1
                &&& id.fold_left(
                    0int,
                    |value: int, c: char| 10 * value + (c as int - '0' as int),
                ) == index
            },
            None => result matches Err(error) && error is NotFound,
        },
{
    if let Some(index) = index {
        let host = "https://"@ + config.url@ + "/"@;
        assert(result->Ok_0@.skip(host.len() as int) =~= decimal(index as nat));
        lemma_decimal_value(index as nat);
    }
}

/// The line of an entry has the first chunk of its text, with two dots if there are more chunks,
/// and its time as a date in the zone of the machine.
pub proof fn lemma_entry_line_shows_the_entry(
    index: u64,
    content: &str,
    time: Option<u64>,
    split_length: u64,
    line: (String, String),
)
    requires
        call_ensures(entry_line, (index, content, time, split_length), Ok(line)),
    ensures
        ({
            let chunks = text_chunks(content@, split_length as usize);
            &&& chunks.len() == 0 ==> line.0@.len() == 0
            &&& chunks.len() == 1 ==> line.0@ == chunks[0]
            &&& chunks.len() > 1 ==> line.0@ == chunks[0] + ".."@
            &&& line.0@.len() <= split_length as usize + 2
        }),
        time matches Some(time) && exists|second: i64, offset: i32|
            {
                &&& second == time || second == time - 0x1_0000_0000_0000_0000
                &&& -377705023201 <= second <= 253402207200
                &&& is_zone_offset(second, offset)
                &&& line.1@ == #[trigger] strftime_text(second, offset, "%Y-%m-%d %H:%M:%S"@)
            },
{
}

/// An error of the database is reported as what it is, in its own words.
pub proof fn lemma_database_errors_keep_their_words(
    table: redb::TableError,
    storage: redb::StorageError,
    transaction: redb::TransactionError,
    commit: redb::CommitError,
    reported: (AppError, AppError, AppError, AppError),
)
    requires
        call_ensures(AppError::from_table, (table,), reported.0),
        call_ensures(AppError::from_storage, (storage,), reported.1),
        call_ensures(AppError::from_transaction, (transaction,), reported.2),
        call_ensures(AppError::from_commit, (commit,), reported.3),
    ensures
        reported.0 matches AppError::Table(text) && to_string_from_display_ensures(&table, text),
        reported.1 matches AppError::Storage(text) && to_string_from_display_ensures(
            &storage,
            text,
        ),
        reported.2 matches AppError::Transaction(text) && to_string_from_display_ensures(
            &transaction,
            text,
        ),
        reported.3 matches AppError::Commit(text) && to_string_from_display_ensures(&commit, text),
{
}

/// The calls that a client makes reach the service under the configured address, with the password
/// and with all that is asked.
pub proof fn lemma_calls_say_what_is_asked(
    config: Config,
    content: String,
    index: u64,
    pushing: RemoteCall,
    popping: RemoteCall,
    removing: RemoteCall,
)
    requires
        call_ensures(push_call, (&config, content), pushing),
        call_ensures(pop_call, (&config,), popping),
        call_ensures(remove_call, (&config, index), removing),
    ensures
        pushing.authorization@ == "Bearer "@ + config.push_password@,
        popping.authorization@ == "Bearer "@ + config.push_password@,
        removing.authorization@ == "Bearer "@ + config.push_password@,
        pushing.method == Method::Post && pushing.url@ == "http://"@ + config.url@,
        popping.method == Method::Get && popping.url@ == "http://"@ + config.url@ + "/pop"@,
        removing.method == Method::Post && removing.url@ == "http://"@ + config.url@ + "/remove"@,
        pushing.body == Body::Content(content),
        popping.body == Body::Empty,
        removing.body == Body::Index(index),
{
    reveal_strlit("/");
    reveal_strlit("/pop");
    reveal_strlit("/remove");
}

/// Within a transaction, an entry that could not be written because of the clock leaves the texts
/// and the times of the log as they were.
pub proof fn lemma_clock_failure_changes_nothing(
    content: String,
    txn: &mut redb::WriteTransaction,
    error: AnyhowError,
)
    requires
        call_ensures(write_table, (content, txn), Err(AppError::Internal(error))) || call_ensures(
            try_write_table,
            (content, txn),
            Err(AppError::Internal(error)),
        ),
    ensures
        ({
            let (old_texts, new_texts) = (pending_texts(*old(txn)), pending_texts(*final(txn)));
            let (old_times, new_times) = (pending_numbers(*old(txn)), pending_numbers(*final(txn)));
            let (blog, date) = ("index_blog_list"@, "index_date_list"@);
            &&& forall|index: u64|
                (#[trigger] new_texts[blog].contains_key(index) && new_texts.contains_key(blog))
                    == (old_texts[blog].contains_key(index) && old_texts.contains_key(blog))
            &&& forall|index: u64|
                (#[trigger] new_times[date].contains_key(index) && new_times.contains_key(date))
                    == (old_times[date].contains_key(index) && old_times.contains_key(date))
            &&& new_texts.contains_key(blog) && old_texts.contains_key(blog) ==> new_texts[blog]
                == old_texts[blog]
            &&& new_times.contains_key(date) && old_times.contains_key(date) ==> new_times[date]
                == old_times[date]
        }),
{
    let (old_log, new_log) = (journal_of(pending(*old(txn))), journal_of(pending(*final(txn))));
    assert(old_log.entries == new_log.entries);
    assert(old_log.dates == new_log.dates);
    assert forall|index: u64|
        (#[trigger] pending_texts(*final(txn))["index_blog_list"@].contains_key(index)
            && pending_texts(*final(txn)).contains_key("index_blog_list"@)) == (pending_texts(
            *old(txn),
        )["index_blog_list"@].contains_key(index) && pending_texts(*old(txn)).contains_key(
            "index_blog_list"@,
        )) by {
        assert(old_log.entries.contains_key(index) == new_log.entries.contains_key(index));
    }
    assert forall|index: u64|
        (#[trigger] pending_numbers(*final(txn))["index_date_list"@].contains_key(index)
            && pending_numbers(*final(txn)).contains_key("index_date_list"@)) == (pending_numbers(
            *old(txn),
        )["index_date_list"@].contains_key(index) && pending_numbers(*old(txn)).contains_key(
            "index_date_list"@,
        )) by {
        assert(old_log.dates.contains_key(index) == new_log.dates.contains_key(index));
    }
}

/// Without the table of the texts no entry is shown or found, and the error says that this table
/// does not exist, unless the storage fails.
pub proof fn lemma_missing_table_is_named(
    db: redb::Database,
    config: Config,
    index: u64,
    page: Result<ContentPage, AppError>,
    location: Result<String, AppError>,
)
    requires
        call_ensures(get_content, (&db, &config, index), page),
        call_ensures(newest, (&db, &config), location),
        !committed_names(db).contains("index_blog_list"@),
    ensures
        page is Err,
        page matches Err(error) ==> error is Transaction || (error matches AppError::Table(text)
            && {
            ||| text@ == "Table '"@ + "index_blog_list"@ + "' does not exist"@
            ||| is_storage_text(text)
        }),
        location is Err,
        location matches Err(error) ==> error is Transaction || (error matches AppError::Table(text)
            && {
            ||| text@ == "Table '"@ + "index_blog_list"@ + "' does not exist"@
            ||| is_storage_text(text)
        }),
{
}

/// A database that could not be opened is described in the words of redb.
pub proof fn lemma_open_faults_keep_their_words(fault: DatabaseFault, text: String)
    requires
        call_ensures(DatabaseFault::message, (&fault,), text),
    ensures
        fault is AlreadyOpen ==> text@ == "Database already open. Cannot acquire lock."@,
        fault matches DatabaseFault::Other(words) ==> text@ == words@,
{
}

/// An entry that was looked up is shown with its text and the configured title; one that was not
/// found is reported so.
pub proof fn lemma_looked_up_entry_is_shown(
    content: Option<String>,
    config: Config,
    result: Result<ContentPage, AppError>,
)
    requires
        call_ensures(page_of, (content, &config), result),
    ensures
        result is Ok <==> content is Some,
        result matches Ok(page) ==> page.content@ == content->Some_0@ && page.title@
            == config.title@,
        result matches Err(error) ==> error is NotFound,
{
}

} // verus!

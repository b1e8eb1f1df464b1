//! What holds of the log over several operations.

use axum::http::{HeaderMap, HeaderValue};
use vstd::prelude::*;

use crate::auth::{
    all_visible, chars_of, header_fields, is_authorized, is_blank, is_visible, is_visible_text,
    lemma_bearer_is_accepted, trim, trim_end, trim_start,
};
use crate::client::{reaches, Body, Endpoint, RemoteCall};
use crate::clock::{is_clock_second, is_date_of, is_timestamp, signed_second};
use crate::config::Config;
use crate::error::{is_commit_text, AnyhowError, AppError};
use crate::journal::{
    has_journal, journal_becomes, journal_of, wrote_entry, Journal, BLOG_TABLE,
};
use crate::page::{
    is_row_error, is_showable, page_end, page_exists, page_number, page_start, shows_entry,
    shows_rows,
};
use crate::service::{
    entry_address, has_bad_entry, is_content_answer, is_home_answer, is_newest_answer,
    is_pop_answer, is_pop_outcome, is_push_answer, is_push_outcome, is_remove_answer,
    is_remove_outcome, ContentPage, HomePage, IndexReply, StatusReply,
};
use crate::store::{committed, is_last_key, is_listing, last_key, lemma_last_key, Tables};
use crate::text::{decimal, digit};

verus! {

/// What a step says of the tables determines the log that the next one finds.
pub proof fn lemma_next_step_sees_the_log(before: Tables, after: Tables, journal: Journal)
    requires
        journal_becomes(before, after, journal),
    ensures
        journal_of(after) == journal,
        has_journal(after),
{
}

/// The newest entry is the one with the largest index; only an empty log has none.
pub proof fn lemma_newest_has_the_largest_index(journal: Journal)
    ensures
        match journal.newest() {
            Some(newest) => journal.entries.contains_key(newest) && forall|index: u64|
                journal.entries.contains_key(index) ==> index <= newest,
            None => journal.entries == Map::<u64, Seq<char>>::empty(),
        },
{
    lemma_last_key(journal.entries);
}

/// A new entry gets an index above all that are in use, so it replaces nothing.
pub proof fn lemma_next_index_is_unused(journal: Journal, index: u64)
    requires
        journal.entries.contains_key(index),
    ensures
        index < journal.next_index(),
{
    lemma_last_key(journal.entries);
}

/// An entry that is written is read back: it is the newest one, with its text and its time,
/// and every other entry is as it was.
pub proof fn lemma_write_is_read_back(journal: Journal, content: Seq<char>, now: u64)
    requires
        journal.newest() != Some(u64::MAX),
    ensures
        ({
            let index = journal.next_index() as u64;
            let after = journal.with_entry(index, content, now);
            &&& after.newest() == Some(index)
            &&& after.entries.contains_key(index) && after.entries[index] == content
            &&& after.dates.contains_key(index) && after.dates[index] == now
            &&& !journal.entries.contains_key(index)
            &&& forall|other: u64|
                other != index ==> {
                    &&& #[trigger] after.entries.contains_key(other)
                        == journal.entries.contains_key(other)
                    &&& after.entries[other] == journal.entries[other]
                    &&& after.dates.contains_key(other) == journal.dates.contains_key(other)
                    &&& after.dates[other] == journal.dates[other]
                }
        }),
{
    let index = journal.next_index() as u64;
    let after = journal.with_entry(index, content, now);
    lemma_last_key(journal.entries);
    lemma_last_key(after.entries);
    assert(after.entries.contains_key(index));
    assert(is_last_key(after.entries, index));
}

/// Every entry keeps a time and every time an entry, whatever is written, popped or removed.
pub proof fn lemma_entries_and_times_stay_aligned(
    journal: Journal,
    index: u64,
    content: Seq<char>,
    now: u64,
)
    requires
        journal.is_aligned(),
    ensures
        journal.with_entry(index, content, now).is_aligned(),
        journal.without_entry(index).is_aligned(),
        journal.without_newest().is_aligned(),
{
    lemma_pop_removes_the_newest(journal);
    assert(journal.with_entry(index, content, now).entries.dom() =~= journal.with_entry(
        index,
        content,
        now,
    ).dates.dom());
    assert(journal.without_entry(index).entries.dom() =~= journal.without_entry(
        index,
    ).dates.dom());
    match journal.newest() {
        Some(newest) => {
            assert(journal.without_entry(newest).entries.dom() =~= journal.without_entry(
                newest,
            ).dates.dom());
        },
        None => {},
    }
}

/// A log without entries is aligned: this is where every log begins.
pub proof fn lemma_empty_log_is_aligned()
    ensures
        (Journal { entries: Map::empty(), dates: Map::empty() }).is_aligned(),
{
    assert(Map::<u64, Seq<char>>::empty().dom() =~= Map::<u64, u64>::empty().dom());
}

/// To pop is to remove the newest entry with its time; on an empty log it does nothing.
pub proof fn lemma_pop_removes_the_newest(journal: Journal)
    requires
        journal.is_aligned(),
    ensures
        journal.without_newest() == match journal.newest() {
            Some(newest) => journal.without_entry(newest),
            None => journal,
        },
{
    lemma_last_key(journal.entries);
    lemma_last_key(journal.dates);
    assert forall|k: u64| journal.entries.contains_key(k) == journal.dates.contains_key(k) by {
        assert(journal.entries.dom().contains(k) == journal.dates.dom().contains(k));
    }
    match journal.newest() {
        Some(newest) => {
            assert(is_last_key(journal.dates, newest));
        },
        None => {
            if let Some(k) = last_key(journal.dates) {
                assert(journal.entries.contains_key(k));
            }
        },
    }
}

/// To pop right after a write takes the log back to what it was.
pub proof fn lemma_pop_undoes_a_write(journal: Journal, content: Seq<char>, now: u64)
    requires
        journal.is_aligned(),
        journal.newest() != Some(u64::MAX),
    ensures
        journal.with_entry(journal.next_index() as u64, content, now).without_newest() == journal,
{
    let index = journal.next_index() as u64;
    let after = journal.with_entry(index, content, now);
    lemma_write_is_read_back(journal, content, now);
    lemma_entries_and_times_stay_aligned(journal, index, content, now);
    lemma_pop_removes_the_newest(after);
    assert(journal.entries.dom().contains(index) == journal.dates.dom().contains(index));
    assert(after.without_entry(index).entries =~= journal.entries);
    assert(after.without_entry(index).dates =~= journal.dates);
}

/// To remove takes away one entry with its time and leaves the others alone; to remove it
/// again, or to remove what is not there, changes nothing.
pub proof fn lemma_remove_takes_one_entry(journal: Journal, index: u64, other: u64)
    requires
        journal.is_aligned(),
    ensures
        ({
            let after = journal.without_entry(index);
            &&& !after.entries.contains_key(index) && !after.dates.contains_key(index)
            &&& after.without_entry(index) == after
            &&& !journal.entries.contains_key(index) ==> after == journal
            &&& other != index && journal.entries.contains_key(other) ==> {
                &&& after.entries.contains_key(other)
                &&& after.entries[other] == journal.entries[other]
                &&& after.dates.contains_key(other)
                &&& after.dates[other] == journal.dates[other]
            }
        }),
{
    let after = journal.without_entry(index);
    assert(after.without_entry(index).entries =~= after.entries);
    assert(after.without_entry(index).dates =~= after.dates);
    assert(journal.entries.dom().contains(index) == journal.dates.dom().contains(index));
    assert(journal.entries.dom().contains(other) == journal.dates.dom().contains(other));
    if !journal.entries.contains_key(index) {
        assert(after.entries =~= journal.entries);
        assert(after.dates =~= journal.dates);
    }
}

/// Every index lies on exactly one page, so no entry is left out and none is shown twice.
pub proof fn lemma_each_index_is_on_one_page(index: u64, page_content: u64, page: int)
    requires
        page_content > 0,
        page >= 1,
    ensures
        page_start(page, page_content as int) <= index < page_end(page, page_content as int)
            <==> page == index / page_content + 1,
{
    let n = page_content as int;
    let q = index as int / n;
    assert(index == n * q + index as int % n && 0 <= index as int % n < n)
        by (nonlinear_arith)
        requires
            n > 0,
            q == index as int / n,
    ;
    let r = index as int % n;
    if page == q + 1 {
        assert((page - 1) * n <= index < page * n) by (nonlinear_arith)
            requires
                page == q + 1,
                index == n * q + r,
                0 <= r < n,
        ;
    } else if page > q + 1 {
        assert((page - 1) * n > index) by (nonlinear_arith)
            requires
                page > q + 1,
                index == n * q + r,
                0 <= r < n,
        ;
    } else {
        assert(page * n <= index) by (nonlinear_arith)
            requires
                page < q + 1,
                index == n * q + r,
                0 <= r < n,
        ;
    }
}

/// A page begins where the one before it ends, and the first page begins at index zero.
pub proof fn lemma_pages_are_contiguous(page: int, page_content: int)
    ensures
        page_end(page, page_content) == page_start(page + 1, page_content),
        page_end(page, page_content) == page_start(page, page_content) + page_content,
        page_start(1, page_content) == 0,
{
    assert((page - 1) * page_content + page_content == page * page_content) by (nonlinear_arith);
}

/// The keys of a listing climb at least as fast as their places in it.
proof fn lemma_listing_climbs<V>(
    rows: Map<u64, V>,
    start: int,
    end: int,
    listing: Seq<(u64, V)>,
    i: int,
)
    requires
        is_listing(rows, start, end, listing),
        0 <= i < listing.len(),
    ensures
        start + i <= listing[i].0,
    decreases i,
{
    assert(start <= listing[i].0);
    if i > 0 {
        lemma_listing_climbs(rows, start, end, listing, i - 1);
        assert(listing[i - 1].0 < listing[i].0);
    }
}

/// A page shows every entry of its range, the newest first, each with its preview and date,
/// and no more lines than the range has indices.
pub proof fn lemma_page_shows_its_entries_newest_first(
    lines: Seq<(String, String)>,
    rows: Seq<(u64, Seq<char>)>,
    journal: Journal,
    start: int,
    end: int,
    split_length: u64,
)
    requires
        is_listing(journal.entries, start, end, rows),
        shows_rows(lines, rows, journal.dates, split_length),
        start <= end,
    ensures
        lines.len() <= end - start,
        forall|i: int, j: int|
            0 <= i < j < lines.len() ==> (#[trigger] rows[rows.len() - 1 - i]).0 > (
            #[trigger] rows[rows.len() - 1 - j]).0,
        forall|index: u64|
            #[trigger] journal.entries.contains_key(index) && start <= index < end ==> exists|
                i: int,
            |
                0 <= i < lines.len() && shows_entry(
                    #[trigger] lines[i],
                    (index, journal.entries[index]),
                    journal.dates,
                    split_length,
                ),
{
    if rows.len() > 0 {
        lemma_listing_climbs(journal.entries, start, end, rows, rows.len() - 1);
        assert(rows[rows.len() - 1].0 < end);
    }
    assert forall|index: u64|
        #[trigger] journal.entries.contains_key(index) && start <= index < end implies exists|
        i: int,
    |
        0 <= i < lines.len() && shows_entry(
            #[trigger] lines[i],
            (index, journal.entries[index]),
            journal.dates,
            split_length,
        ) by {
        let k = choose|k: int| 0 <= k < rows.len() && (#[trigger] rows[k]).0 == index;
        let i = rows.len() - 1 - k;
        assert(rows[k] == (index, journal.entries[index]));
        assert(shows_entry(lines[i], rows[rows.len() - 1 - i], journal.dates, split_length));
    }
}

/// The rows of a range are determined: there is only one listing of them.
pub proof fn lemma_listing_is_unique<V>(
    rows: Map<u64, V>,
    start: int,
    end: int,
    one: Seq<(u64, V)>,
    other: Seq<(u64, V)>,
)
    requires
        is_listing(rows, start, end, one),
        is_listing(rows, start, end, other),
    ensures
        one == other,
    decreases one.len(),
{
    if one.len() == 0 {
        if other.len() > 0 {
            let k = other[0].0;
            assert(rows.contains_key(k));
            let i = choose|i: int| 0 <= i < one.len() && (#[trigger] one[i]).0 == k;
            assert(false);
        }
        assert(one =~= other);
    } else {
        let top = one.last().0;
        assert(rows.contains_key(one[one.len() - 1].0));
        let i = choose|i: int| 0 <= i < other.len() && (#[trigger] other[i]).0 == top;
        let high = other[other.len() - 1].0;
        assert(rows.contains_key(high));
        let j = choose|j: int| 0 <= j < one.len() && (#[trigger] one[j]).0 == high;
        if i < other.len() - 1 {
            assert(other[i].0 < other[other.len() - 1].0);
        }
        if j < one.len() - 1 {
            assert(one[j].0 < one[one.len() - 1].0);
        }
        assert(top == high);
        lemma_listing_without_last(rows, start, end, one);
        lemma_listing_without_last(rows, start, end, other);
        lemma_listing_is_unique(rows, start, top as int, one.drop_last(), other.drop_last());
        assert(one =~= one.drop_last().push(one.last()));
        assert(other =~= other.drop_last().push(other.last()));
        assert(one.last() == other.last());
    }
}

/// A listing without its last row lists what lies below that row.
proof fn lemma_listing_without_last<V>(
    rows: Map<u64, V>,
    start: int,
    end: int,
    listing: Seq<(u64, V)>,
)
    requires
        is_listing(rows, start, end, listing),
        listing.len() > 0,
    ensures
        is_listing(rows, start, listing.last().0 as int, listing.drop_last()),
{
    let top = listing.last().0;
    let shorter = listing.drop_last();
    assert forall|i: int| 0 <= i < shorter.len() implies start <= (#[trigger] shorter[i]).0 < top
        && rows.contains_key(shorter[i].0) && rows[shorter[i].0] == shorter[i].1 by {
        assert(shorter[i] == listing[i]);
        assert(listing[i].0 < listing[listing.len() - 1].0);
    }
    assert forall|k: u64| #[trigger] rows.contains_key(k) && start <= k < top implies exists|i: int|
        0 <= i < shorter.len() && (#[trigger] shorter[i]).0 == k by {
        assert(listing[listing.len() - 1].0 < end);
        let i = choose|i: int| 0 <= i < listing.len() && (#[trigger] listing[i]).0 == k;
        assert(shorter[i] == listing[i]);
    }
}

/// In an aligned log whose times are dates, no entry keeps a page from being shown.
pub proof fn lemma_aligned_log_can_be_shown(
    journal: Journal,
    start: int,
    end: int,
    error: AppError,
)
    requires
        journal.is_aligned(),
        forall|index: u64| #[trigger]
            journal.dates.contains_key(index) ==> is_timestamp(
                signed_second(journal.dates[index]),
            ),
    ensures
        !has_bad_entry(journal, start, end, error),
{
    assert forall|index: u64|
        !{
            &&& #[trigger] journal.entries.contains_key(index)
            &&& start <= index < end
            &&& is_row_error(error, (index, journal.entries[index]), journal.dates)
        } by {
        assert(journal.entries.dom().contains(index) == journal.dates.dom().contains(index));
    }
}

/// What was written is what the service then serves: from the database as the write left it, the
/// entry is the newest one and is found under its index with its text, unless the storage fails.
pub proof fn lemma_written_entry_is_served(
    before: redb::Database,
    after: redb::Database,
    index: u64,
    content: Seq<char>,
    config: Config,
    location: Result<String, AppError>,
    page: Result<ContentPage, AppError>,
)
    requires
        is_push_outcome(committed(before), committed(after), content, Ok(Some(index))),
        is_newest_answer(committed(after), config, location),
        is_content_answer(committed(after), config, index, page),
    ensures
        match location {
            Ok(location) => location@ == entry_address(config, index),
            Err(error) => error.is_opening_error() || error.is_storage_error(),
        },
        match page {
            Ok(page) => page.title@ == config.title@ && page.content@ == content,
            Err(error) => error.is_opening_error() || error.is_storage_error(),
        },
{
    lemma_write_leaves_the_entry(committed(before), committed(after), index, content);
}

/// A write leaves the entry in the log, as the newest one and with a time.
proof fn lemma_write_leaves_the_entry(
    before: Tables,
    after: Tables,
    index: u64,
    content: Seq<char>,
)
    requires
        wrote_entry(before, after, index, content),
    ensures
        has_journal(after),
        journal_of(after).newest() == Some(index),
        journal_of(after).entries.contains_key(index),
        journal_of(after).entries[index] == content,
{
    let journal = journal_of(before);
    let now = choose|now: u64|
        is_clock_second(now) && journal_becomes(
            before,
            after,
            #[trigger] journal.with_entry(index, content, now),
        );
    lemma_next_step_sees_the_log(before, after, journal.with_entry(index, content, now));
    lemma_write_is_read_back(journal, content, now);
}

/// What was written heads its page: from the database as the write left it, the first line of the
/// page that covers the index shows the entry.
pub proof fn lemma_written_entry_heads_its_page(
    before: redb::Database,
    after: redb::Database,
    index: u64,
    content: Seq<char>,
    config: Config,
    page: Option<u64>,
    shown: HomePage,
)
    requires
        is_push_outcome(committed(before), committed(after), content, Ok(Some(index))),
        is_home_answer(committed(after), config, page, Ok(shown)),
        shown.fault is None,
        page_start(page_number(page), config.page_content as int) <= index < page_end(
            page_number(page),
            config.page_content as int,
        ),
    ensures
        shown.contents@.len() > 0,
        shows_entry(
            shown.contents@[0],
            (index, content),
            journal_of(committed(after)).dates,
            config.split_length,
        ),
{
    let log = journal_of(committed(after));
    let lines = shown.contents@;
    let start = page_start(page_number(page), config.page_content as int);
    let end = page_end(page_number(page), config.page_content as int);
    lemma_write_leaves_the_entry(committed(before), committed(after), index, content);
    lemma_newest_has_the_largest_index(log);
    let rows = choose|rows: Seq<(u64, Seq<char>)>| #[trigger]
        is_listing(log.entries, start, end, rows) && shows_rows(
            lines,
            rows,
            log.dates,
            config.split_length,
        );
    let i = choose|i: int| 0 <= i < rows.len() && (#[trigger] rows[i]).0 == index;
    let last = rows.len() - 1;
    assert(log.entries.contains_key(rows[last].0));
    if i < last {
        assert(rows[i].0 < rows[last].0);
    }
    assert(rows[last] == (index, content));
    assert(shows_entry(lines[0], rows[rows.len() - 1 - 0], log.dates, config.split_length));
}

/// An entry that was removed is not served from the database as the removal left it.
pub proof fn lemma_removed_entry_is_not_served(
    before: redb::Database,
    after: redb::Database,
    index: u64,
    config: Config,
    page: Result<ContentPage, AppError>,
)
    requires
        is_remove_outcome(committed(before), committed(after), index, Ok(())),
        is_content_answer(committed(after), config, index, page),
    ensures
        page matches Err(error) && (error is NotFound || error.is_opening_error()
            || error.is_storage_error()),
{
    lemma_next_step_sees_the_log(
        committed(before),
        committed(after),
        journal_of(committed(before)).without_entry(index),
    );
}

/// The newest entry is what a pop hands back, with its text, and it is not served from the
/// database as the pop left it.
pub proof fn lemma_popped_entry_is_not_served(
    before: redb::Database,
    after: redb::Database,
    index: u64,
    record: Option<(u64, String)>,
    config: Config,
    page: Result<ContentPage, AppError>,
)
    requires
        journal_of(committed(before)).newest() == Some(index),
        is_pop_outcome(committed(before), committed(after), Ok(record)),
        is_content_answer(committed(after), config, index, page),
    ensures
        record matches Some(record) && record.0 == index && record.1@ == journal_of(
            committed(before),
        ).entries[index],
        page matches Err(error) && (error is NotFound || error.is_opening_error()
            || error.is_storage_error()),
{
    lemma_next_step_sees_the_log(
        committed(before),
        committed(after),
        journal_of(committed(before)).without_newest(),
    );
}

/// To pop right after a write takes the log back to what it was, and hands back what was written.
pub proof fn lemma_pop_hands_back_what_was_written(
    before: redb::Database,
    between: redb::Database,
    after: redb::Database,
    index: u64,
    content: Seq<char>,
    record: Option<(u64, String)>,
)
    requires
        journal_of(committed(before)).is_aligned(),
        is_push_outcome(committed(before), committed(between), content, Ok(Some(index))),
        is_pop_outcome(committed(between), committed(after), Ok(record)),
    ensures
        record matches Some(record) && record.0 == index && record.1@ == content,
        journal_of(committed(after)) == journal_of(committed(before)),
{
    let journal = journal_of(committed(before));
    let now = choose|now: u64|
        is_clock_second(now) && journal_becomes(
            committed(before),
            committed(between),
            #[trigger] journal.with_entry(index, content, now),
        );
    let written = journal.with_entry(index, content, now);
    lemma_next_step_sees_the_log(committed(before), committed(between), written);
    lemma_write_is_read_back(journal, content, now);
    lemma_pop_undoes_a_write(journal, content, now);
    lemma_next_step_sees_the_log(committed(between), committed(after), written.without_newest());
}

/// A request without the password leaves the database as it was, whatever it asks for.
pub proof fn lemma_refusal_changes_nothing(
    header: HeaderMap<HeaderValue>,
    password: Seq<char>,
    before: redb::Database,
    after: redb::Database,
    content: Seq<char>,
    index: u64,
    pushed: Result<Option<IndexReply>, AppError>,
    popped: Result<StatusReply, AppError>,
    removed: Result<IndexReply, AnyhowError>,
)
    requires
        !is_authorized(header, password),
        ({
            let authorized = is_authorized(header, password);
            let (old_tables, new_tables) = (committed(before), committed(after));
            ||| is_push_answer(authorized, old_tables, new_tables, content, pushed)
            ||| is_pop_answer(authorized, old_tables, new_tables, popped)
            ||| is_remove_answer(authorized, old_tables, new_tables, index, removed)
        }),
    ensures
        committed(after) == committed(before),
{
}

/// Every entry keeps a time and every time an entry over every attempt to change the log that
/// succeeds, and over every one that fails before the commit.
pub proof fn lemma_database_stays_aligned(
    before: redb::Database,
    after: redb::Database,
    content: Seq<char>,
    index: u64,
    pushed: Result<Option<u64>, AppError>,
    popped: Result<Option<(u64, String)>, AppError>,
    removed: Result<(), AnyhowError>,
)
    requires
        journal_of(committed(before)).is_aligned(),
        ({
            let (old_tables, new_tables) = (committed(before), committed(after));
            ||| is_push_outcome(old_tables, new_tables, content, pushed) && !(pushed matches Err(
                error,
            ) && error.is_commit_error())
            ||| is_pop_outcome(old_tables, new_tables, popped) && !(popped matches Err(error)
                && error.is_commit_error())
            ||| is_remove_outcome(old_tables, new_tables, index, removed) && !(removed matches Err(
                error,
            ) && is_commit_text(error.0))
        }),
    ensures
        journal_of(committed(after)).is_aligned(),
{
    let journal = journal_of(committed(before));
    let log = journal_of(committed(after));
    lemma_entries_and_times_stay_aligned(journal, index, content, 0);
    if journal_becomes(committed(before), committed(after), journal.without_newest()) {
        assert(log == journal.without_newest());
    } else if journal_becomes(committed(before), committed(after), journal.without_entry(index)) {
        assert(log == journal.without_entry(index));
    } else if committed(after) == committed(before) {
    } else {
        let at = pushed->Ok_0->Some_0;
        let now = choose|now: u64|
            is_clock_second(now) && journal_becomes(
                committed(before),
                committed(after),
                #[trigger] journal.with_entry(at, content, now),
            );
        lemma_entries_and_times_stay_aligned(journal, at, content, now);
        assert(log == journal.with_entry(at, content, now));
    }
}

/// The home page without a page number is the first page.
pub proof fn lemma_first_page_is_the_default(
    tables: Tables,
    config: Config,
    result: Result<HomePage, AppError>,
)
    ensures
        is_home_answer(tables, config, None, result) <==> is_home_answer(
            tables,
            config,
            Some(1),
            result,
        ),
{
}

/// Unless the storage fails, a page comes out exactly if each of its entries has a time that is a
/// date; entries of other pages do not matter.
pub proof fn lemma_page_fails_only_for_its_own_entries(
    tables: Tables,
    config: Config,
    page: Option<u64>,
    result: Result<HomePage, AppError>,
)
    requires
        has_journal(tables),
        is_home_answer(tables, config, page, result),
        match result {
            Ok(shown) => shown.fault is None,
            Err(error) => !error.is_opening_error() && !error.is_storage_error(),
        },
    ensures
        result matches Err(error) ==> error is Internal,
        result is Ok <==> (forall|index: u64| #[trigger]
            journal_of(tables).entries.contains_key(index) && page_start(
                page_number(page),
                config.page_content as int,
            ) <= index < page_end(page_number(page), config.page_content as int) ==> is_showable(
                (index, journal_of(tables).entries[index]),
                journal_of(tables).dates,
            )),
{
    let journal = journal_of(tables);
    let start = page_start(page_number(page), config.page_content as int);
    let end = page_end(page_number(page), config.page_content as int);
    if let Ok(shown) = result {
        let rows = choose|rows: Seq<(u64, Seq<char>)>| #[trigger]
            is_listing(journal.entries, start, end, rows) && shows_rows(
                shown.contents@,
                rows,
                journal.dates,
                config.split_length,
            );
        assert forall|index: u64| #[trigger]
            journal.entries.contains_key(index) && start <= index < end implies is_showable(
            (index, journal.entries[index]),
            journal.dates,
        ) by {
            let k = choose|k: int| 0 <= k < rows.len() && (#[trigger] rows[k]).0 == index;
            let i = rows.len() - 1 - k;
            assert(rows[k] == (index, journal.entries[index]));
            assert(shows_entry(
                shown.contents@[i],
                rows[rows.len() - 1 - i],
                journal.dates,
                config.split_length,
            ));
        }
    }
}

/// Every entry can be browsed: unless the storage fails, the page that covers its index, when it
/// comes out, has a line that shows it.
pub proof fn lemma_every_entry_can_be_browsed(
    tables: Tables,
    config: Config,
    index: u64,
    page: u64,
    shown: HomePage,
)
    requires
        journal_of(tables).entries.contains_key(index),
        config.page_content > 0,
        page == index / config.page_content + 1,
        is_home_answer(tables, config, Some(page), Ok(shown)),
        shown.fault is None,
    ensures
        exists|i: int|
            0 <= i < shown.contents@.len() && shows_entry(
                #[trigger] shown.contents@[i],
                (index, journal_of(tables).entries[index]),
                journal_of(tables).dates,
                config.split_length,
            ),
{
    let journal = journal_of(tables);
    let start = page_start(page as int, config.page_content as int);
    let end = page_end(page as int, config.page_content as int);
    lemma_each_index_is_on_one_page(index, config.page_content, page as int);
    lemma_pages_are_contiguous(page as int, config.page_content as int);
    let rows = choose|rows: Seq<(u64, Seq<char>)>| #[trigger]
        is_listing(journal.entries, start, end, rows) && shows_rows(
            shown.contents@,
            rows,
            journal.dates,
            config.split_length,
        );
    lemma_page_shows_its_entries_newest_first(
        shown.contents@,
        rows,
        journal,
        start,
        end,
        config.split_length,
    );
}

/// In a range of which every index is in use, the listing has the indices in order.
proof fn lemma_full_listing<V>(
    rows: Map<u64, V>,
    start: int,
    end: int,
    listing: Seq<(u64, V)>,
    i: int,
)
    requires
        is_listing(rows, start, end, listing),
        0 <= start,
        end <= u64::MAX,
        forall|k: u64| start <= k < end ==> #[trigger] rows.contains_key(k),
        0 <= i < end - start,
    ensures
        i < listing.len(),
        listing[i].0 == start + i,
{
    let key = (start + i) as u64;
    assert(rows.contains_key(key));
    let j = choose|j: int| 0 <= j < listing.len() && (#[trigger] listing[j]).0 == key;
    lemma_listing_climbs(rows, start, end, listing, j);
    if i < listing.len() {
        lemma_listing_climbs(rows, start, end, listing, i);
    }
    if j < i {
        lemma_full_listing_reaches(rows, start, end, listing, j);
    } else if j > i {
        assert(listing[i].0 < listing[j].0);
    }
}

/// In a range of which every index is in use, each row of the listing is at its place.
proof fn lemma_full_listing_reaches<V>(
    rows: Map<u64, V>,
    start: int,
    end: int,
    listing: Seq<(u64, V)>,
    j: int,
)
    requires
        is_listing(rows, start, end, listing),
        0 <= start,
        end <= u64::MAX,
        forall|k: u64| start <= k < end ==> #[trigger] rows.contains_key(k),
        0 <= j < end - start,
        j < listing.len(),
    ensures
        listing[j].0 == start + j,
    decreases j,
{
    let key = (start + j) as u64;
    assert(rows.contains_key(key));
    let k = choose|k: int| 0 <= k < listing.len() && (#[trigger] listing[k]).0 == key;
    lemma_listing_climbs(rows, start, end, listing, j);
    lemma_listing_climbs(rows, start, end, listing, k);
    if k < j {
        lemma_full_listing_reaches(rows, start, end, listing, k);
    } else if k > j {
        assert(listing[j].0 < listing[k].0);
    }
}

/// A page has at most as many lines as it covers indices, and exactly as many if every index is
/// in use.
pub proof fn lemma_full_range_gives_a_full_page(
    tables: Tables,
    config: Config,
    page: Option<u64>,
    shown: HomePage,
)
    requires
        page_exists(page, config.page_content),
        is_home_answer(tables, config, page, Ok(shown)),
        shown.fault is None,
    ensures
        shown.contents@.len() <= config.page_content,
        (forall|index: u64|
            page_start(page_number(page), config.page_content as int) <= index < page_end(
                page_number(page),
                config.page_content as int,
            ) ==> #[trigger] journal_of(tables).entries.contains_key(index))
            ==> shown.contents@.len() == config.page_content,
{
    let journal = journal_of(tables);
    let n = page_number(page);
    let start = page_start(n, config.page_content as int);
    let end = page_end(n, config.page_content as int);
    lemma_pages_are_contiguous(n, config.page_content as int);
    assert(0 <= (n - 1) * config.page_content) by (nonlinear_arith)
        requires
            n >= 1,
            config.page_content >= 0,
    ;
    let rows = choose|rows: Seq<(u64, Seq<char>)>| #[trigger]
        is_listing(journal.entries, start, end, rows) && shows_rows(
            shown.contents@,
            rows,
            journal.dates,
            config.split_length,
        );
    lemma_page_shows_its_entries_newest_first(
        shown.contents@,
        rows,
        journal,
        start,
        end,
        config.split_length,
    );
    if (forall|index: u64| start <= index < end ==> #[trigger] journal.entries.contains_key(index))
        && config.page_content > 0 {
        lemma_full_listing(journal.entries, start, end, rows, config.page_content - 1);
    }
}

/// The listings of two ranges, one after the other, are the listing of both together.
pub proof fn lemma_listings_join<V>(
    rows: Map<u64, V>,
    start: int,
    middle: int,
    end: int,
    first: Seq<(u64, V)>,
    second: Seq<(u64, V)>,
)
    requires
        start <= middle <= end,
        is_listing(rows, start, middle, first),
        is_listing(rows, middle, end, second),
    ensures
        is_listing(rows, start, end, first + second),
{
    let both = first + second;
    assert forall|i: int, j: int| 0 <= i < j < both.len() implies both[i].0 < both[j].0 by {
        if j < first.len() {
            assert(first[i].0 < first[j].0);
        } else if i >= first.len() {
            assert(second[i - first.len()].0 < second[j - first.len()].0);
        } else {
            assert(first[i].0 < middle);
            assert(second[j - first.len()].0 >= middle);
        }
    }
    assert forall|i: int| 0 <= i < both.len() implies start <= (#[trigger] both[i]).0 < end
        && rows.contains_key(both[i].0) && rows[both[i].0] == both[i].1 by {
        if i < first.len() {
            assert(both[i] == first[i]);
        } else {
            assert(both[i] == second[i - first.len()]);
        }
    }
    assert forall|k: u64| #[trigger] rows.contains_key(k) && start <= k < end implies exists|i: int|
        0 <= i < both.len() && (#[trigger] both[i]).0 == k by {
        if k < middle {
            let i = choose|i: int| 0 <= i < first.len() && (#[trigger] first[i]).0 == k;
            assert(both[i] == first[i]);
        } else {
            let i = choose|i: int| 0 <= i < second.len() && (#[trigger] second[i]).0 == k;
            assert(both[first.len() + i] == second[i]);
        }
    }
}

/// The rows of the first pages, one page after the other, are the rows of the log up to the end
/// of the last of these pages, each once.
pub proof fn lemma_pages_together_list_the_log<V>(
    rows: Map<u64, V>,
    page_content: u64,
    pages: Seq<Seq<(u64, V)>>,
)
    requires
        forall|i: int|
            0 <= i < pages.len() ==> is_listing(
                rows,
                page_start(i + 1, page_content as int),
                page_end(i + 1, page_content as int),
                #[trigger] pages[i],
            ),
    ensures
        is_listing(
            rows,
            0,
            page_end(pages.len() as int, page_content as int),
            pages.flatten_alt(),
        ),
    decreases pages.len(),
{
    let n = pages.len() as int;
    let size = page_content as int;
    if n == 0 {
        assert(page_end(0, size) == 0);
    } else {
        let earlier = pages.drop_last();
        assert forall|i: int| 0 <= i < earlier.len() implies is_listing(
            rows,
            page_start(i + 1, size),
            page_end(i + 1, size),
            #[trigger] earlier[i],
        ) by {
            assert(earlier[i] == pages[i]);
        }
        lemma_pages_together_list_the_log(rows, page_content, earlier);
        lemma_pages_are_contiguous(n, size);
        assert(0 <= (n - 1) * size) by (nonlinear_arith)
            requires
                n >= 1,
                size >= 0,
        ;
        assert(pages.last() == pages[n - 1]);
        assert(is_listing(rows, page_start(n, size), page_end(n, size), pages[n - 1]));
        lemma_listings_join(
            rows,
            0,
            page_start(n, size),
            page_end(n, size),
            earlier.flatten_alt(),
            pages.last(),
        );
    }
}

/// A removal leaves the other pages alone: a page that does not cover the index, or any page if the
/// entry is not there, lists the same rows as before, and what showed them still does.
pub proof fn lemma_removal_leaves_other_pages_alone(
    journal: Journal,
    index: u64,
    start: int,
    end: int,
    rows: Seq<(u64, Seq<char>)>,
    lines: Seq<(String, String)>,
    split_length: u64,
)
    requires
        is_listing(journal.entries, start, end, rows),
        shows_rows(lines, rows, journal.dates, split_length),
        !(journal.entries.contains_key(index) && start <= index < end),
    ensures
        is_listing(journal.without_entry(index).entries, start, end, rows),
        shows_rows(lines, rows, journal.without_entry(index).dates, split_length),
{
    let after = journal.without_entry(index);
    assert forall|k: u64| #[trigger]
        after.entries.contains_key(k) && start <= k < end implies exists|i: int|
        0 <= i < rows.len() && (#[trigger] rows[i]).0 == k by {
        assert(journal.entries.contains_key(k));
    }
    assert forall|i: int| 0 <= i < lines.len() implies shows_entry(
        #[trigger] lines[i],
        rows[rows.len() - 1 - i],
        after.dates,
        split_length,
    ) by {
        assert(rows[rows.len() - 1 - i].0 != index);
    }
}

/// On the page that covers it, a removal takes away the line of the removed entry and no other.
pub proof fn lemma_removal_takes_one_line(
    journal: Journal,
    start: int,
    end: int,
    rows: Seq<(u64, Seq<char>)>,
    place: int,
    lines: Seq<(String, String)>,
    split_length: u64,
)
    requires
        is_listing(journal.entries, start, end, rows),
        shows_rows(lines, rows, journal.dates, split_length),
        0 <= place < rows.len(),
    ensures
        is_listing(
            journal.without_entry(rows[place].0).entries,
            start,
            end,
            rows.remove(place),
        ),
        shows_rows(
            lines.remove(rows.len() - 1 - place),
            rows.remove(place),
            journal.without_entry(rows[place].0).dates,
            split_length,
        ),
{
    let index = rows[place].0;
    let after = journal.without_entry(index);
    let fewer = rows.remove(place);
    let left = lines.remove(rows.len() - 1 - place);
    assert forall|i: int| 0 <= i < fewer.len() implies start <= (#[trigger] fewer[i]).0 < end
        && after.entries.contains_key(fewer[i].0) && after.entries[fewer[i].0] == fewer[i].1 by {
        let j = if i < place { i } else { i + 1 };
        assert(fewer[i] == rows[j]);
        if j < place {
            assert(rows[j].0 < rows[place].0);
        } else {
            assert(rows[place].0 < rows[j].0);
        }
    }
    assert forall|i: int, j: int| 0 <= i < j < fewer.len() implies fewer[i].0 < fewer[j].0 by {
        let a = if i < place { i } else { i + 1 };
        let b = if j < place { j } else { j + 1 };
        assert(rows[a].0 < rows[b].0);
    }
    assert forall|k: u64| #[trigger]
        after.entries.contains_key(k) && start <= k < end implies exists|i: int|
        0 <= i < fewer.len() && (#[trigger] fewer[i]).0 == k by {
        assert(journal.entries.contains_key(k));
        let j = choose|j: int| 0 <= j < rows.len() && (#[trigger] rows[j]).0 == k;
        let i = if j < place { j } else { j - 1 };
        assert(fewer[i] == rows[j]);
    }
    assert forall|i: int| 0 <= i < left.len() implies shows_entry(
        #[trigger] left[i],
        fewer[fewer.len() - 1 - i],
        after.dates,
        split_length,
    ) by {
        let j = if i < rows.len() - 1 - place { i } else { i + 1 };
        assert(left[i] == lines[j]);
        assert(fewer[fewer.len() - 1 - i] == rows[rows.len() - 1 - j]);
        assert(shows_entry(lines[j], rows[rows.len() - 1 - j], journal.dates, split_length));
        assert(rows[rows.len() - 1 - j].0 != index) by {
            let k = rows.len() - 1 - j;
            if k < place {
                assert(rows[k].0 < rows[place].0);
            } else {
                assert(rows[place].0 < rows[k].0);
            }
        }
    }
}

/// In a database without the tables of the log, no request that reads comes out: each is answered
/// that the table of the texts does not exist, unless the storage fails.
pub proof fn lemma_missing_log_is_reported(
    tables: Tables,
    config: Config,
    page: Option<u64>,
    index: u64,
    home: Result<HomePage, AppError>,
    content: Result<ContentPage, AppError>,
    location: Result<String, AppError>,
)
    requires
        !tables.names.contains(BLOG_TABLE@),
        is_home_answer(tables, config, page, home),
        is_content_answer(tables, config, index, content),
        is_newest_answer(tables, config, location),
    ensures
        home matches Err(error) && (error.is_missing_error(BLOG_TABLE@)
            || error.is_opening_error()),
        content matches Err(error) && (error.is_missing_error(BLOG_TABLE@)
            || error.is_opening_error()),
        location matches Err(error) && (error.is_missing_error(BLOG_TABLE@)
            || error.is_opening_error()),
{
}

/// Two lines show the same: they have the same preview, and their dates are those of one time.
pub open spec fn same_line(one: (String, String), other: (String, String)) -> bool {
    &&& one.0@ == other.0@
    &&& exists|time: u64| #[trigger] is_date_of(one.1@, time) && is_date_of(other.1@, time)
}

/// The lines show the same, one by one.
pub open spec fn same_lines(one: Seq<(String, String)>, other: Seq<(String, String)>) -> bool {
    &&& one.len() == other.len()
    &&& forall|i: int| 0 <= i < one.len() ==> same_line(#[trigger] one[i], other[i])
}

/// Lines that show the same rows show the same.
proof fn lemma_same_rows_show_the_same(
    one: Seq<(String, String)>,
    other: Seq<(String, String)>,
    rows: Seq<(u64, Seq<char>)>,
    dates: Map<u64, u64>,
    split_length: u64,
)
    requires
        shows_rows(one, rows, dates, split_length),
        shows_rows(other, rows, dates, split_length),
    ensures
        same_lines(one, other),
{
    assert forall|i: int| 0 <= i < one.len() implies same_line(#[trigger] one[i], other[i]) by {
        let row = rows[rows.len() - 1 - i];
        assert(shows_entry(one[i], row, dates, split_length));
        assert(shows_entry(other[i], row, dates, split_length));
        assert(is_date_of(one[i].1@, dates[row.0]));
    }
}

/// The same page of the same database shows the same, with or without the number of the first
/// page. The zone of the dates is the machine's at each request.
pub proof fn lemma_same_page_shows_the_same(
    tables: Tables,
    config: Config,
    page: Option<u64>,
    other_page: Option<u64>,
    one: HomePage,
    other: HomePage,
)
    requires
        page_number(page) == page_number(other_page),
        is_home_answer(tables, config, page, Ok(one)),
        is_home_answer(tables, config, other_page, Ok(other)),
        one.fault is None,
        other.fault is None,
    ensures
        one.title@ == other.title@,
        same_lines(one.contents@, other.contents@),
{
    let journal = journal_of(tables);
    let start = page_start(page_number(page), config.page_content as int);
    let end = page_end(page_number(page), config.page_content as int);
    let rows = choose|rows: Seq<(u64, Seq<char>)>| #[trigger]
        is_listing(journal.entries, start, end, rows) && shows_rows(
            one.contents@,
            rows,
            journal.dates,
            config.split_length,
        );
    let other_rows = choose|rows: Seq<(u64, Seq<char>)>| #[trigger]
        is_listing(journal.entries, start, end, rows) && shows_rows(
            other.contents@,
            rows,
            journal.dates,
            config.split_length,
        );
    lemma_listing_is_unique(journal.entries, start, end, rows, other_rows);
    lemma_same_rows_show_the_same(
        one.contents@,
        other.contents@,
        rows,
        journal.dates,
        config.split_length,
    );
}

/// After a removal every page shows what it showed before, but for the line of the removed entry
/// on the page that covers it: no entry moves to another page.
pub proof fn lemma_removal_moves_no_entry(
    before: redb::Database,
    after: redb::Database,
    index: u64,
    config: Config,
    page: Option<u64>,
    earlier: HomePage,
    later: HomePage,
)
    requires
        is_remove_outcome(committed(before), committed(after), index, Ok(())),
        is_home_answer(committed(before), config, page, Ok(earlier)),
        is_home_answer(committed(after), config, page, Ok(later)),
        earlier.fault is None,
        later.fault is None,
    ensures
        ({
            let journal = journal_of(committed(before));
            let start = page_start(page_number(page), config.page_content as int);
            let end = page_end(page_number(page), config.page_content as int);
            if journal.entries.contains_key(index) && start <= index < end {
                exists|i: int|
                    {
                        &&& 0 <= i < earlier.contents@.len()
                        &&& shows_entry(
                            #[trigger] earlier.contents@[i],
                            (index, journal.entries[index]),
                            journal.dates,
                            config.split_length,
                        )
                        &&& same_lines(earlier.contents@.remove(i), later.contents@)
                    }
            } else {
                same_lines(earlier.contents@, later.contents@)
            }
        }),
{
    let journal = journal_of(committed(before));
    let left = journal.without_entry(index);
    let start = page_start(page_number(page), config.page_content as int);
    let end = page_end(page_number(page), config.page_content as int);
    lemma_next_step_sees_the_log(committed(before), committed(after), left);
    let rows = choose|rows: Seq<(u64, Seq<char>)>| #[trigger]
        is_listing(journal.entries, start, end, rows) && shows_rows(
            earlier.contents@,
            rows,
            journal.dates,
            config.split_length,
        );
    let left_rows = choose|rows: Seq<(u64, Seq<char>)>| #[trigger]
        is_listing(left.entries, start, end, rows) && shows_rows(
            later.contents@,
            rows,
            left.dates,
            config.split_length,
        );
    if journal.entries.contains_key(index) && start <= index < end {
        let place = choose|k: int| 0 <= k < rows.len() && (#[trigger] rows[k]).0 == index;
        let i = rows.len() - 1 - place;
        lemma_removal_takes_one_line(
            journal,
            start,
            end,
            rows,
            place,
            earlier.contents@,
            config.split_length,
        );
        lemma_listing_is_unique(left.entries, start, end, rows.remove(place), left_rows);
        lemma_same_rows_show_the_same(
            earlier.contents@.remove(i),
            later.contents@,
            left_rows,
            left.dates,
            config.split_length,
        );
        assert(rows[place] == (index, journal.entries[index]));
        assert(shows_entry(
            earlier.contents@[i],
            rows[rows.len() - 1 - i],
            journal.dates,
            config.split_length,
        ));
    } else {
        lemma_removal_leaves_other_pages_alone(
            journal,
            index,
            start,
            end,
            rows,
            earlier.contents@,
            config.split_length,
        );
        lemma_listing_is_unique(left.entries, start, end, rows, left_rows);
        lemma_same_rows_show_the_same(
            earlier.contents@,
            later.contents@,
            rows,
            left.dates,
            config.split_length,
        );
    }
}

/// A number begins with its own leading digits and ends with its last one.
proof fn lemma_decimal_digits(n: nat)
    ensures
        decimal(n).len() > 0,
        decimal(n).last() == digit((n % 10) as int),
        n >= 10 ==> decimal(n).drop_last() == decimal(n / 10),
        n < 10 ==> decimal(n).len() == 1,
        n >= 10 ==> decimal(n).len() > 1,
    decreases n,
{
    if n >= 10 {
        lemma_decimal_digits(n / 10);
        assert(decimal(n).drop_last() =~= decimal(n / 10));
    }
}

/// Different numbers are written differently.
pub proof fn lemma_decimal_is_injective(a: nat, b: nat)
    requires
        decimal(a) == decimal(b),
    ensures
        a == b,
    decreases a,
{
    lemma_decimal_digits(a);
    lemma_decimal_digits(b);
    let x = (a % 10) as int;
    let y = (b % 10) as int;
    assert(digit(x) as u32 == 0x30 + x);
    assert(digit(y) as u32 == 0x30 + y);
    if a >= 10 {
        lemma_decimal_is_injective(a / 10, b / 10);
    }
}

/// Different entries have different addresses.
pub proof fn lemma_addresses_are_distinct(config: Config, a: u64, b: u64)
    requires
        entry_address(config, a) == entry_address(config, b),
    ensures
        a == b,
{
    let prefix = "https://"@ + config.url@ + "/"@;
    assert(entry_address(config, a).skip(prefix.len() as int) =~= decimal(a as nat));
    assert(entry_address(config, b).skip(prefix.len() as int) =~= decimal(b as nat));
    lemma_decimal_is_injective(a as nat, b as nat);
}

/// The program's own requests are let through by a service with the same configuration, if the
/// password is visible ASCII without a blank at either end.
pub proof fn lemma_own_requests_are_accepted(
    call: RemoteCall,
    endpoint: Endpoint,
    config: Config,
    header: HeaderMap<HeaderValue>,
    value: Seq<u8>,
)
    requires
        reaches(call, endpoint, config),
        header_fields(header).contains_key("authorization"@),
        header_fields(header)["authorization"@][0] == value,
        all_visible(value),
        chars_of(value) == call.authorization@,
        config.push_password@.len() > 0 ==> !is_blank(config.push_password@.first())
            && !is_blank(config.push_password@.last()),
    ensures
        is_authorized(header, config.push_password@),
{
    lemma_bearer_is_accepted(header, config.push_password@, value, config.push_password@);
}

/// A removal that is asked of a running service does what a local one does: with the same
/// configuration on both sides the request is not refused, and the answer names the index that
/// was sent.
pub proof fn lemma_remote_removal_is_a_removal(
    call: RemoteCall,
    config: Config,
    header: HeaderMap<HeaderValue>,
    value: Seq<u8>,
    before: redb::Database,
    after: redb::Database,
    index: u64,
    result: Result<IndexReply, AnyhowError>,
)
    requires
        reaches(call, Endpoint::Remove, config),
        call.body == Body::Index(index),
        header_fields(header).contains_key("authorization"@),
        header_fields(header)["authorization"@][0] == value,
        all_visible(value),
        chars_of(value) == call.authorization@,
        config.push_password@.len() > 0 ==> !is_blank(config.push_password@.first())
            && !is_blank(config.push_password@.last()),
        is_remove_answer(
            is_authorized(header, config.push_password@),
            committed(before),
            committed(after),
            index,
            result,
        ),
    ensures
        match result {
            Ok(reply) => call.body == Body::Index(reply.index) && is_remove_outcome(
                committed(before),
                committed(after),
                index,
                Ok(()),
            ),
            Err(error) => is_remove_outcome(
                committed(before),
                committed(after),
                index,
                Err(error),
            ),
        },
{
    lemma_own_requests_are_accepted(call, Endpoint::Remove, config, header, value);
}

/// Text without its leading blanks is a part of it that does not begin with a blank.
proof fn lemma_trim_start(text: Seq<char>)
    ensures
        trim_start(text).len() > 0 ==> !is_blank(trim_start(text).first()),
        forall|i: int| #![trigger trim_start(text)[i]]
            0 <= i < trim_start(text).len() ==> text.contains(trim_start(text)[i]),
    decreases text.len(),
{
    if text.len() > 0 && is_blank(text.first()) {
        lemma_trim_start(text.drop_first());
        assert forall|i: int| #![trigger trim_start(text)[i]]
            0 <= i < trim_start(text).len() implies text.contains(trim_start(text)[i]) by {
            let rest = text.drop_first();
            assert(rest.contains(trim_start(rest)[i]));
            let j = choose|j: int| 0 <= j < rest.len() && rest[j] == trim_start(rest)[i];
            assert(text[j + 1] == rest[j]);
        }
    }
}

/// Text without its trailing blanks is a part of it that does not end with a blank and begins
/// as the text does.
proof fn lemma_trim_end(text: Seq<char>)
    ensures
        trim_end(text).len() > 0 ==> !is_blank(trim_end(text).last()) && trim_end(text).first()
            == text.first(),
        forall|i: int| #![trigger trim_end(text)[i]]
            0 <= i < trim_end(text).len() ==> text.contains(trim_end(text)[i]),
    decreases text.len(),
{
    if text.len() > 0 && is_blank(text.last()) {
        lemma_trim_end(text.drop_last());
        assert forall|i: int| #![trigger trim_end(text)[i]]
            0 <= i < trim_end(text).len() implies text.contains(trim_end(text)[i]) by {
            let rest = text.drop_last();
            assert(rest.contains(trim_end(rest)[i]));
            let j = choose|j: int| 0 <= j < rest.len() && rest[j] == trim_end(rest)[i];
            assert(text[j] == rest[j]);
        }
    }
}

/// No request can carry a password that has a blank at an end or a character that is not
/// visible ASCII: with such a password every request is refused.
pub proof fn lemma_some_passwords_cannot_be_sent(
    header: HeaderMap<HeaderValue>,
    password: Seq<char>,
)
    requires
        ({
            ||| password.len() > 0 && is_blank(password.first())
            ||| password.len() > 0 && is_blank(password.last())
            ||| !is_visible_text(password)
        }),
    ensures
        !is_authorized(header, password),
{
    if is_authorized(header, password) {
        let value = header_fields(header)["authorization"@][0];
        let chars = chars_of(value);
        let rest = chars.skip("Bearer "@.len() as int);
        assert(password == trim(rest));
        lemma_trim_start(rest);
        lemma_trim_end(trim_start(rest));
        assert forall|i: int| 0 <= i < password.len() implies ' ' <= #[trigger] password[i] <= '~'
            || password[i] == '\t' by {
            let start = trim_start(rest);
            assert(start.contains(trim_end(start)[i]));
            let j = choose|j: int| 0 <= j < start.len() && start[j] == trim_end(start)[i];
            assert(rest.contains(trim_start(rest)[j]));
            let k = choose|k: int| 0 <= k < rest.len() && rest[k] == trim_start(rest)[j];
            assert(rest[k] == chars["Bearer "@.len() + k]);
            assert(is_visible(value["Bearer "@.len() + k]));
        }
    }
}

/// A request carries at most one password.
pub proof fn lemma_at_most_one_password_fits(
    header: HeaderMap<HeaderValue>,
    one: Seq<char>,
    other: Seq<char>,
)
    requires
        is_authorized(header, one),
        is_authorized(header, other),
    ensures
        one == other,
{
}

/// A failure inside the service is answered in the same words whatever it was, so the answer
/// gives no detail away.
pub proof fn lemma_internal_failures_look_alike(one: AppError, other: AppError)
    requires
        one.status_spec() == 500,
        other.status_spec() == 500,
    ensures
        one.answer_spec() == other.answer_spec(),
{
}

/// A refusal by the password check is answered, for writing and popping, as a failure inside
/// the service.
pub proof fn lemma_refusal_is_an_internal_failure(error: AnyhowError)
    ensures
        AppError::Internal(error).status_spec() == 500,
        AppError::Internal(error).answer_spec() == "An internal server error occurred"@,
{
}

} // verus!

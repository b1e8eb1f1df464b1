//! The home page: which entries it shows, in which order, and how much of each.

use vstd::prelude::*;

use crate::clock::{is_date_error, is_date_of, is_timestamp, local_date, signed_second};
use crate::error::{AnyhowError, AppError};
use crate::store::{number_rows, remaining_rows, NumberTable, TextRange};
use crate::text::{decimal, decimal_text, join};

verus! {

/// The chunks into which `TextSplitter::chunks` splits a text, with a capacity in characters.
pub uninterp spec fn text_chunks(text: Seq<char>, capacity: usize) -> Seq<Seq<char>>;

/// The texts as sequences of characters.
pub open spec fn views(texts: Seq<String>) -> Seq<Seq<char>> {
    texts.map_values(|text: String| text@)
}

/// Calls `TextSplitter::chunks`. What the chunks are depends on the text and the capacity
/// alone; none is longer than the capacity. With a capacity of zero the splitter can fail on
/// blanks.
#[verifier::external_body]
fn split(text: &str, capacity: usize) -> (chunks: Vec<String>)
    requires
        capacity > 0,
    ensures
        views(chunks@) == text_chunks(text@, capacity),
        forall|i: int| 0 <= i < chunks@.len() ==> (#[trigger] chunks@[i])@.len() <= capacity,
{
    let splitter = text_splitter::TextSplitter::new(capacity);
    splitter.chunks(text).map(|chunk| chunk.to_string()).collect()
}

/// The preview of a text that splits into these chunks: the first one, with two dots after it
/// if there are more.
pub open spec fn preview_text(chunks: Seq<Seq<char>>) -> Seq<char> {
    if chunks.len() == 0 {
        Seq::empty()
    } else if chunks.len() == 1 {
        chunks[0]
    } else {
        chunks[0] + ".."@
    }
}

/// The preview of a text that splits into these chunks.
pub fn preview_of(chunks: &Vec<String>) -> (text: String)
    ensures
        text@ == preview_text(views(chunks@)),
{
    if chunks.len() == 0 {
        String::new()
    } else if chunks.len() == 1 {
        chunks[0].clone()
    } else {
        join(chunks[0].as_str(), "..")
    }
}

/// The preview of an entry.
pub fn preview(content: &str, split_length: u64) -> (text: String)
    requires
        split_length as usize > 0,
    ensures
        text@ == preview_text(text_chunks(content@, split_length as usize)),
        text@.len() <= split_length as usize + 2,
{
    let chunks = split(content, split_length as usize);
    proof {
        reveal_strlit("..");
        if chunks@.len() > 0 {
            assert(views(chunks@)[0] == chunks@[0]@);
        }
    }
    preview_of(&chunks)
}

/// The page that is asked for; the first one, if none is.
pub open spec fn page_number(page: Option<u64>) -> int {
    match page {
        Some(page) => page as int,
        None => 1,
    }
}

/// The index at which a page begins.
pub open spec fn page_start(page: int, page_content: int) -> int {
    (page - 1) * page_content
}

/// The index at which the next page begins.
pub open spec fn page_end(page: int, page_content: int) -> int {
    page * page_content
}

/// Pages count from one, and the indices of a page must not run over.
pub open spec fn page_exists(page: Option<u64>, page_content: u64) -> bool {
    &&& page_number(page) >= 1
    &&& page_end(page_number(page), page_content as int) <= u64::MAX
}

/// Whether the page can be shown.
pub fn has_page(page: Option<u64>, page_content: u64) -> (exists_page: bool)
    ensures
        exists_page == page_exists(page, page_content),
{
    let page: u64 = match page {
        Some(page) => page,
        None => 1,
    };
    page >= 1 && page.checked_mul(page_content).is_some()
}

/// The indices that a page shows, from the first one up to but not including the last one.
pub fn page_range(page: Option<u64>, page_content: u64) -> (range: (u64, u64))
    requires
        page_exists(page, page_content),
    ensures
        range.0 == page_start(page_number(page), page_content as int),
        range.1 == page_end(page_number(page), page_content as int),
{
    let page: u64 = match page {
        Some(page) => page,
        None => 1,
    };
    assert((page - 1) * page_content + page_content == page * page_content) by (nonlinear_arith);
    assert(0 <= (page - 1) * page_content) by (nonlinear_arith)
        requires
            page >= 1,
    ;
    let start = (page - 1) * page_content;
    let end = start + page_content;
    (start, end)
}

/// The entry of this row can be shown: it has a time, and the time is a date.
pub open spec fn is_showable(row: (u64, Seq<char>), dates: Map<u64, u64>) -> bool {
    dates.contains_key(row.0) && is_timestamp(signed_second(dates[row.0]))
}

/// The line shows the entry of this row: its preview, no longer than asked but for the dots, and
/// its date.
pub open spec fn shows_entry(
    line: (String, String),
    row: (u64, Seq<char>),
    dates: Map<u64, u64>,
    split_length: u64,
) -> bool {
    &&& is_showable(row, dates)
    &&& line.0@ == preview_text(text_chunks(row.1, split_length as usize))
    &&& line.0@.len() <= split_length as usize + 2
    &&& is_date_of(line.1@, dates[row.0])
}

/// The error for a row that cannot be shown.
pub open spec fn is_row_error(
    error: AppError,
    row: (u64, Seq<char>),
    dates: Map<u64, u64>,
) -> bool {
    if !dates.contains_key(row.0) {
        error matches AppError::Internal(error) && error@ == "Missing date for index "@ + decimal(
            row.0 as nat,
        )
    } else {
        !is_timestamp(signed_second(dates[row.0])) && is_date_error(error)
    }
}

/// Row `i` is the first one that cannot be shown, for the reason `error`.
pub open spec fn is_first_bad_row(
    error: AppError,
    rows: Seq<(u64, Seq<char>)>,
    i: int,
    dates: Map<u64, u64>,
) -> bool {
    &&& 0 <= i < rows.len()
    &&& is_row_error(error, rows[i], dates)
    &&& forall|j: int| 0 <= j < i ==> is_showable(#[trigger] rows[j], dates)
}

/// The lines show the rows, the last row first.
pub open spec fn shows_rows(
    lines: Seq<(String, String)>,
    rows: Seq<(u64, Seq<char>)>,
    dates: Map<u64, u64>,
    split_length: u64,
) -> bool {
    &&& lines.len() == rows.len()
    &&& forall|i: int|
        0 <= i < lines.len() ==> shows_entry(
            #[trigger] lines[i],
            rows[rows.len() - 1 - i],
            dates,
            split_length,
        )
}

/// The line for an entry with this index, text and time.
pub fn entry_line(index: u64, content: &str, time: Option<u64>, split_length: u64) -> (result:
    Result<(String, String), AppError>)
    requires
        split_length as usize > 0,
    ensures
        match result {
            Ok(line) => {
                &&& time is Some
                &&& line.0@ == preview_text(text_chunks(content@, split_length as usize))
                &&& line.0@.len() <= split_length as usize + 2
                &&& is_date_of(line.1@, time->0)
            },
            Err(error) => match time {
                None => error matches AppError::Internal(error) && error@
                    == "Missing date for index "@ + decimal(index as nat),
                Some(time) => !is_timestamp(signed_second(time)) && is_date_error(error),
            },
        },
{
    let time = match time {
        Some(time) => time,
        None => {
            return Err(
                AppError::Internal(
                    AnyhowError(join("Missing date for index ", decimal_text(index).as_str())),
                ),
            );
        },
    };
    let content = preview(content, split_length);
    match local_date(time) {
        Ok(date) => Ok((content, date)),
        Err(error) => Err(error),
    }
}

/// The items in the opposite order.
fn reversed<T>(items: Vec<T>) -> (result: Vec<T>)
    ensures
        result@ == items@.reverse(),
{
    let mut items = items;
    let ghost all = items@;
    let mut result: Vec<T> = Vec::new();
    while items.len() > 0
        invariant
            items@.len() <= all.len(),
            items@ == all.take(items@.len() as int),
            result@ == all.skip(items@.len() as int).reverse(),
        decreases items@.len(),
    {
        let ghost before = items@.len() as int;
        if let Some(item) = items.pop() {
            result.push(item);
            assert(all.skip(before - 1).reverse() == all.skip(before).reverse().push(
                all[before - 1],
            ));
        }
    }
    assert(all.skip(0) == all);
    result
}

/// The lines of the entries in a range, the newest first. The first row that cannot be shown,
/// or cannot be read, ends the attempt with its error.
pub fn list_entries(range: TextRange, dates: &NumberTable, split_length: u64) -> (result: Result<
    Vec<(String, String)>,
    AppError,
>)
    requires
        split_length as usize > 0,
    ensures
        result matches Ok(lines) ==> shows_rows(
            lines@,
            remaining_rows(range),
            number_rows(*dates),
            split_length,
        ),
        result matches Err(error) ==> error.is_storage_error() || exists|i: int| #[trigger]
            is_first_bad_row(error, remaining_rows(range), i, number_rows(*dates)),
{
    let ghost rows = remaining_rows(range);
    let mut rest = range;
    let mut contents: Vec<(String, String)> = Vec::new();
    loop
        invariant_except_break
            remaining_rows(rest) == rows.skip(contents@.len() as int),
        invariant
            split_length as usize > 0,
            rows == remaining_rows(range),
            contents@.len() <= rows.len(),
            forall|i: int|
                0 <= i < contents@.len() ==> shows_entry(
                    #[trigger] contents@[i],
                    rows[i],
                    number_rows(*dates),
                    split_length,
                ),
        ensures
            contents@.len() == rows.len(),
        decreases rows.len() - contents@.len(),
    {
        let ghost shown = contents@.len() as int;
        let row = match rest.next() {
            None => break,
            Some(Ok(row)) => row,
            Some(Err(error)) => return Err(AppError::from_storage(error)),
        };
        assert(rows.skip(shown)[0] == rows[shown]);
        assert(rows.skip(shown).skip(1) == rows.skip(shown + 1));
        let time = match dates.get(row.0) {
            Ok(time) => time,
            Err(error) => return Err(AppError::from_storage(error)),
        };
        match entry_line(row.0, row.1.as_str(), time, split_length) {
            Ok(line) => contents.push(line),
            Err(error) => {
                assert(is_row_error(error, rows[shown], number_rows(*dates)));
                assert forall|j: int| 0 <= j < shown implies is_showable(
                    #[trigger] rows[j],
                    number_rows(*dates),
                ) by {
                    assert(shows_entry(contents@[j], rows[j], number_rows(*dates), split_length));
                }
                assert(is_first_bad_row(error, rows, shown, number_rows(*dates)));
                return Err(error);
            },
        }
    }
    let lines = reversed(contents);
    assert forall|i: int| 0 <= i < lines@.len() implies shows_entry(
        #[trigger] lines@[i],
        rows[rows.len() - 1 - i],
        number_rows(*dates),
        split_length,
    ) by {
        assert(lines@[i] == contents@[rows.len() - 1 - i]);
    }
    Ok(lines)
}

} // verus!

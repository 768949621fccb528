//! The lines that a cycle prints. Each line is printed on its own; an empty
//! line separates.

use vstd::prelude::*;
use crate::item::{Item, ItemView};
use crate::listing::FeedError;
use crate::poller::{CycleReport, CycleReportView, Status};
use crate::query::{site, site_text};
use crate::text::{decimal_digits, decimal_text};

verus! {

/// The lines of one post: title, address, creation time, and an empty line.
pub open spec fn item_lines(item: ItemView) -> Seq<Seq<char>> {
    seq![item.title, site() + item.permalink, item.created_local, Seq::<char>::empty()]
}

/// The lines of a run of posts.
pub open spec fn items_lines(items: Seq<ItemView>) -> Seq<Seq<char>>
    decreases items.len(),
{
    if items.len() == 0 {
        Seq::empty()
    } else {
        items_lines(items.drop_last()) + item_lines(items.last())
    }
}

/// The lines that close a cycle that ran to its end, for a poller that
/// fetches every `interval` seconds.
pub open spec fn status_lines(status: Status, interval: nat) -> Seq<Seq<char>> {
    match status {
        Status::Started => seq![
            "Checking for new posts every "@ + decimal_digits(interval) + " seconds..."@,
            Seq::<char>::empty(),
        ],
        Status::FoundNew => seq![
            "Found the above new posts, checking again in "@ + decimal_digits(interval)
                + " seconds..."@,
        ],
        Status::NoneNew => seq![
            "No new posts found, checking again in "@ + decimal_digits(interval) + " seconds..."@,
        ],
    }
}

/// What is said of a failure.
pub open spec fn failure_text(failure: FeedError) -> Seq<char> {
    match failure {
        FeedError::Malformed => "the response is not a JSON document"@,
        FeedError::NoListing => "the response holds no list of posts"@,
        FeedError::MissingField => "a post lacks its title, permalink or creation time"@,
        FeedError::BadTimestamp => "a creation time is not a whole number of seconds"@,
        FeedError::TimestampOutOfRange => "a creation time lies outside the calendar"@,
    }
}

/// The line that reports a failure.
pub open spec fn error_line(reason: Seq<char>) -> Seq<char> {
    "Error: "@ + reason
}

/// All the lines of a cycle: those of the posts shown, then the status or the
/// failure.
pub open spec fn report_lines(report: CycleReportView, interval: nat) -> Seq<Seq<char>> {
    items_lines(report.emitted) + match report.outcome {
        Ok(status) => status_lines(status, interval),
        Err(failure) => seq![error_line(failure_text(failure))],
    }
}

/// Appends one line.
fn push_line(lines: &mut Vec<String>, line: String)
    ensures
        final(lines).deep_view() == old(lines).deep_view().push(line@),
{
    let ghost before = lines.deep_view();
    lines.push(line);
    assert(lines.deep_view() =~= before.push(line@));
}

/// Appends a line made of a number between two texts.
fn push_counted(lines: &mut Vec<String>, before: &str, count: u64, after: &str)
    ensures
        final(lines).deep_view() == old(lines).deep_view().push(
            before@ + decimal_digits(count as nat) + after@,
        ),
{
    let mut line = String::from_str(before);
    line.append(decimal_text(count).as_str());
    line.append(after);
    push_line(lines, line);
}

/// Appends the lines of one post.
fn push_item(lines: &mut Vec<String>, item: &Item)
    ensures
        final(lines).deep_view() == old(lines).deep_view() + item_lines(item@),
{
    let ghost before = lines.deep_view();
    push_line(lines, item.title.clone());
    let mut address = String::from_str(site_text());
    address.append(item.permalink.as_str());
    push_line(lines, address);
    push_line(lines, item.created_local.clone());
    push_line(lines, String::new());
    assert(lines.deep_view() =~= before + item_lines(item@));
}

impl FeedError {
    /// What is said of this failure.
    pub fn message(&self) -> (text: &'static str)
        ensures
            text@ == failure_text(*self),
    {
        match self {
            FeedError::Malformed => "the response is not a JSON document",
            FeedError::NoListing => "the response holds no list of posts",
            FeedError::MissingField => "a post lacks its title, permalink or creation time",
            FeedError::BadTimestamp => "a creation time is not a whole number of seconds",
            FeedError::TimestampOutOfRange => "a creation time lies outside the calendar",
        }
    }
}

/// The line that reports a failure.
pub fn error_text(reason: &str) -> (line: String)
    ensures
        line@ == error_line(reason@),
{
    let mut line = String::from_str("Error: ");
    line.append(reason);
    line
}

/// The lines to print for a cycle.
pub fn render_report(report: &CycleReport, interval: u64) -> (lines: Vec<String>)
    ensures
        lines.deep_view() == report_lines(report@, interval as nat),
{
    let mut lines: Vec<String> = Vec::new();
    let ghost items = report.emitted.deep_view();
    assert(lines.deep_view() =~= items_lines(items.take(0)));
    let mut i: usize = 0;
    while i < report.emitted.len()
        invariant
            i <= report.emitted.len(),
            items == report.emitted.deep_view(),
            lines.deep_view() == items_lines(items.take(i as int)),
        decreases report.emitted.len() - i,
    {
        push_item(&mut lines, &report.emitted[i]);
        assert(items.take(i + 1).drop_last() =~= items.take(i as int));
        assert(items.take(i + 1).last() == report.emitted[i as int]@);
        i += 1;
    }
    assert(items.take(i as int) =~= items);
    let ghost shown = lines.deep_view();
    match report.outcome {
        Ok(Status::Started) => {
            push_counted(&mut lines, "Checking for new posts every ", interval, " seconds...");
            push_line(&mut lines, String::new());
        },
        Ok(Status::FoundNew) => {
            push_counted(
                &mut lines,
                "Found the above new posts, checking again in ",
                interval,
                " seconds...",
            );
        },
        Ok(Status::NoneNew) => {
            push_counted(
                &mut lines,
                "No new posts found, checking again in ",
                interval,
                " seconds...",
            );
        },
        Err(failure) => {
            push_line(&mut lines, error_text(failure.message()));
        },
    }
    assert(lines.deep_view() =~= report_lines(report@, interval as nat));
    lines
}

} // verus!

//! A watch as a machine: it is handed what a fetch brought and answers with
//! the lines to print and what to do next. The caller fetches, prints and
//! sleeps.

use vstd::prelude::*;
use crate::display::{error_line, error_text, render_report, report_lines};
use crate::listing::listing_of;
use crate::poller::{Poller, report_of, seen_after};
use crate::query::{FeedQuery, intro_of, url_of};

verus! {

/// What a fetch brought.
#[derive(Debug, PartialEq, Eq)]
pub enum Event {
    /// A response body, and the reader's zone in seconds east of UTC.
    Fetched { body: String, offset_seconds: i32 },
    /// No response, and why.
    Failed { reason: String },
}

/// The mathematical value of an [`Event`].
#[verifier::ext_equal]
pub enum EventView {
    Fetched { body: Seq<char>, offset_seconds: int },
    Failed { reason: Seq<char> },
}

impl View for Event {
    type V = EventView;

    open spec fn view(&self) -> EventView {
        match self {
            Event::Fetched { body, offset_seconds } => EventView::Fetched {
                body: body@,
                offset_seconds: *offset_seconds as int,
            },
            Event::Failed { reason } => EventView::Failed { reason: reason@ },
        }
    }
}

/// What the caller does after it has printed the lines of a step.
#[derive(Clone, Copy, Debug, PartialEq, Eq, Structural)]
pub enum Next {
    /// Sleep for so many seconds, then fetch again.
    Sleep { seconds: u64 },
    /// End the watch.
    Stop,
}

/// The answer to an event.
#[derive(Debug, PartialEq, Eq)]
pub struct Step {
    /// The lines to print, in order.
    pub lines: Vec<String>,
    /// What to do then.
    pub next: Next,
}

/// The mathematical value of a [`Step`].
#[verifier::ext_equal]
pub struct StepView {
    pub lines: Seq<Seq<char>>,
    pub next: Next,
}

impl View for Step {
    type V = StepView;

    open spec fn view(&self) -> StepView {
        StepView { lines: self.lines.deep_view(), next: self.next }
    }
}

/// The answer to an event of a watch that has seen the titles `seen` and
/// fetches every `interval` seconds. Any failure, of the fetch or of a field,
/// ends the watch; nothing is tried again.
pub open spec fn step_of(seen: Set<Seq<char>>, seeding: bool, interval: u64, event: EventView)
    -> StepView {
    match event {
        EventView::Failed { reason } => StepView {
            lines: seq![error_line(reason)],
            next: Next::Stop,
        },
        EventView::Fetched { body, offset_seconds } => {
            let report = report_of(seen, seeding, listing_of(body, offset_seconds));
            StepView {
                lines: report_lines(report, interval as nat),
                next: match report.outcome {
                    Ok(_) => Next::Sleep { seconds: interval },
                    Err(_) => Next::Stop,
                },
            }
        },
    }
}

/// The titles that a watch knows after an event.
pub open spec fn seen_after_event(seen: Set<Seq<char>>, event: EventView) -> Set<Seq<char>> {
    match event {
        EventView::Failed { reason } => seen,
        EventView::Fetched { body, offset_seconds } => seen_after(
            seen,
            listing_of(body, offset_seconds).items,
        ),
    }
}

/// Whether a watch is still seeding after an event: only if it was and the
/// cycle did not run to its end.
pub open spec fn seeding_after_event(seeding: bool, event: EventView) -> bool {
    match event {
        EventView::Failed { reason } => seeding,
        EventView::Fetched { body, offset_seconds } => seeding && listing_of(
            body,
            offset_seconds,
        ).failure is Some,
    }
}

/// A watch on one feed.
pub struct Watch {
    query: FeedQuery,
    interval: u64,
    poller: Poller,
}

impl Watch {
    /// The name of the feed.
    pub closed spec fn name(&self) -> Seq<char> {
        self.query.name()
    }

    /// The order in which posts are asked for.
    pub closed spec fn sort(&self) -> Seq<char> {
        self.query.sort()
    }

    /// The seconds between two fetches.
    pub closed spec fn interval(&self) -> u64 {
        self.interval
    }

    /// The titles shown so far.
    pub closed spec fn seen(&self) -> Set<Seq<char>> {
        self.poller.seen()
    }

    /// True until a cycle has run to its end.
    pub closed spec fn seeding(&self) -> bool {
        self.poller.seeding()
    }

    /// A watch that has not fetched yet.
    pub fn new(query: FeedQuery, interval: u64) -> (watch: Watch)
        ensures
            watch.name() == query.name(),
            watch.sort() == query.sort(),
            watch.interval() == interval,
            watch.seen() == Set::<Seq<char>>::empty(),
            watch.seeding(),
    {
        Watch { query, interval, poller: Poller::new() }
    }

    /// The lines that open the watch.
    pub fn opening(&self) -> (lines: Vec<String>)
        ensures
            lines.deep_view() == seq![intro_of(self.name(), self.sort()), Seq::<char>::empty()],
    {
        let mut lines: Vec<String> = Vec::new();
        lines.push(self.query.intro());
        lines.push(String::new());
        assert(lines.deep_view() =~= seq![
            intro_of(self.name(), self.sort()),
            Seq::<char>::empty(),
        ]);
        lines
    }

    /// The address to fetch, the same in every cycle.
    pub fn request(&self) -> (url: String)
        ensures
            url@ == url_of(self.name(), self.sort()),
    {
        self.query.url()
    }

    /// Whether a post with this title has been shown.
    pub fn has_seen(&self, title: &String) -> (known: bool)
        ensures
            known == self.seen().contains(title@),
    {
        self.poller.has_seen(title)
    }

    /// Takes what a fetch brought and answers with the lines to print and
    /// what to do next.
    pub fn advance(&mut self, event: &Event) -> (step: Step)
        ensures
            step@ == step_of(old(self).seen(), old(self).seeding(), old(self).interval(), event@),
            final(self).seen() == seen_after_event(old(self).seen(), event@),
            final(self).seeding() == seeding_after_event(old(self).seeding(), event@),
            final(self).name() == old(self).name(),
            final(self).sort() == old(self).sort(),
            final(self).interval() == old(self).interval(),
    {
        match event {
            Event::Failed { reason } => {
                let mut lines: Vec<String> = Vec::new();
                lines.push(error_text(reason.as_str()));
                assert(lines.deep_view() =~= seq![error_line(reason@)]);
                Step { lines, next: Next::Stop }
            },
            Event::Fetched { body, offset_seconds } => {
                let report = self.poller.cycle(body.as_str(), *offset_seconds);
                let lines = render_report(&report, self.interval);
                let next = match report.outcome {
                    Ok(_) => Next::Sleep { seconds: self.interval },
                    Err(_) => Next::Stop,
                };
                Step { lines, next }
            },
        }
    }
}

} // verus!

//! Change detection for a polled content feed.
//!
//! A poller fetches the current page of a forum listing again and again,
//! compares it with the titles it has already shown, and reports only the
//! posts that are new. This crate holds the decisions of that loop: how a
//! response body is decoded into posts, which posts are shown in which
//! cycle, and which lines are printed. Fetching, sleeping and printing are
//! left to the caller.

pub mod calendar;
pub mod display;
pub mod item;
pub mod json;
pub mod listing;
pub mod poller;
pub mod query;
pub mod session;
pub mod text;

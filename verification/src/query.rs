//! What is watched: a feed by name, in one of the orders the site offers.

use vstd::prelude::*;
use crate::text::{decimal_digits, decimal_text};

verus! {

/// The number of posts asked for in one fetch.
pub const PAGE_SIZE: u64 = 10;

/// The address of the site, without a trailing slash.
pub open spec fn site() -> Seq<char> {
    "https://www.reddit.com"@
}

/// The address from which a page of the feed `name` in the order `sort` is
/// fetched.
pub open spec fn url_of(name: Seq<char>, sort: Seq<char>) -> Seq<char> {
    site() + "/r/"@ + name + "/"@ + sort + ".json?limit="@ + decimal_digits(PAGE_SIZE as nat)
}

/// The line that opens a watch.
pub open spec fn intro_of(name: Seq<char>, sort: Seq<char>) -> Seq<char> {
    "Showing posts from r/"@ + name + " sorted by "@ + sort + " ..."@
}

/// The address of the site.
pub fn site_text() -> (text: &'static str)
    ensures
        text@ == site(),
{
    "https://www.reddit.com"
}

/// A feed and the order in which its posts are asked for. The order is
/// handed to the site as it is: one that the site does not know shows as a
/// failed fetch.
pub struct FeedQuery {
    name: String,
    sort: String,
}

impl FeedQuery {
    /// The name of the feed.
    pub closed spec fn name(&self) -> Seq<char> {
        self.name@
    }

    /// The order: `hot`, `new` or `top`.
    pub closed spec fn sort(&self) -> Seq<char> {
        self.sort@
    }

    /// A query for the feed `name` in the order `sort`.
    pub fn new(name: &str, sort: &str) -> (query: FeedQuery)
        ensures
            query.name() == name@,
            query.sort() == sort@,
    {
        FeedQuery { name: name.to_owned(), sort: sort.to_owned() }
    }

    /// The address to fetch.
    pub fn url(&self) -> (url: String)
        ensures
            url@ == url_of(self.name(), self.sort()),
    {
        let mut url = String::from_str(site_text());
        url.append("/r/");
        url.append(self.name.as_str());
        url.append("/");
        url.append(self.sort.as_str());
        url.append(".json?limit=");
        url.append(decimal_text(PAGE_SIZE).as_str());
        url
    }

    /// The line that opens the watch.
    pub fn intro(&self) -> (line: String)
        ensures
            line@ == intro_of(self.name(), self.sort()),
    {
        let mut line = String::from_str("Showing posts from r/");
        line.append(self.name.as_str());
        line.append(" sorted by ");
        line.append(self.sort.as_str());
        line.append(" ...");
        line
    }
}

} // verus!

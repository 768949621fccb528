//! Decoding a response body into posts.
//!
//! A body is a JSON document of the shape
//! `{ "data": { "children": [ { "data": { "title", "permalink",
//! "created_utc" } }, .. ] } }`. Posts are decoded one after the other; the
//! first that cannot be decoded ends the listing, and the posts before it
//! stand.

use vstd::prelude::*;
use crate::calendar::{calendar_text, format_epoch};
use crate::item::{Item, ItemView};
use crate::json::{
    elements,
    json_elements,
    json_member,
    json_parsed,
    json_text,
    json_texts,
    member,
    parse,
    render,
};
use crate::text::{epoch_of, parse_epoch, strip_quotes, unquoted};

verus! {

/// Why a listing, or a post of it, could not be decoded.
///
/// `Malformed` is a failure of the fetch; the others are failures of a field.
#[derive(Clone, Copy, Debug, PartialEq, Eq, Structural)]
pub enum FeedError {
    /// The body is not a JSON document.
    Malformed,
    /// The document holds no array at `data.children`.
    NoListing,
    /// A post lacks `data`, or `title`, `permalink` or `created_utc` in it.
    MissingField,
    /// A creation time is not a whole number of seconds followed by `.0`.
    BadTimestamp,
    /// A creation time lies outside the calendar.
    TimestampOutOfRange,
}

/// The three fields of a post as the document encodes them.
#[derive(Debug, PartialEq, Eq)]
pub struct RawEntry {
    pub title: String,
    pub permalink: String,
    pub created_utc: String,
}

/// The mathematical value of a [`RawEntry`].
#[verifier::ext_equal]
pub struct RawEntryView {
    pub title: Seq<char>,
    pub permalink: Seq<char>,
    pub created_utc: Seq<char>,
}

impl View for RawEntry {
    type V = RawEntryView;

    open spec fn view(&self) -> RawEntryView {
        RawEntryView {
            title: self.title@,
            permalink: self.permalink@,
            created_utc: self.created_utc@,
        }
    }
}

/// The posts decoded from one body, and what ended the decoding early.
#[derive(Debug, PartialEq, Eq)]
pub struct Listing {
    /// The posts that were decoded, in the order of the document.
    pub items: Vec<Item>,
    /// The failure that ended the decoding, if one did.
    pub failure: Option<FeedError>,
}

/// The mathematical value of a [`Listing`].
#[verifier::ext_equal]
pub struct ListingView {
    pub items: Seq<ItemView>,
    pub failure: Option<FeedError>,
}

impl View for Listing {
    type V = ListingView;

    open spec fn view(&self) -> ListingView {
        ListingView { items: self.items.deep_view(), failure: self.failure }
    }
}

/// How a creation time is written for the reader: day, month by name, year,
/// then the time of day.
pub open spec fn timestamp_pattern() -> Seq<char> {
    "%d %B, %Y %H:%M:%S"@
}

/// The compact texts of the posts of a document: the elements of the array
/// `children` in the object `data`.
pub open spec fn posts_in(document: Seq<char>) -> Option<Seq<Seq<char>>> {
    match json_member(document, "data"@) {
        None => None,
        Some(data) => match json_member(data, "children"@) {
            None => None,
            Some(children) => json_elements(children),
        },
    }
}

/// The compact texts of the posts of a body.
pub open spec fn children_of(body: Seq<char>) -> Result<Seq<Seq<char>>, FeedError> {
    match json_parsed(body) {
        None => Err(FeedError::Malformed),
        Some(document) => match posts_in(document) {
            None => Err(FeedError::NoListing),
            Some(posts) => Ok(posts),
        },
    }
}

/// The encoded fields of the post with the compact text `post`.
pub open spec fn raw_entry_of(post: Seq<char>) -> Result<RawEntryView, FeedError> {
    match json_member(post, "data"@) {
        None => Err(FeedError::MissingField),
        Some(data) => match (
            json_member(data, "title"@),
            json_member(data, "permalink"@),
            json_member(data, "created_utc"@),
        ) {
            (Some(title), Some(permalink), Some(created_utc)) => Ok(
                RawEntryView { title, permalink, created_utc },
            ),
            _ => Err(FeedError::MissingField),
        },
    }
}

/// The post that encoded fields stand for, with its creation time written in
/// the zone `offset_seconds` east of UTC.
pub open spec fn item_of(raw: RawEntryView, offset_seconds: int) -> Result<ItemView, FeedError> {
    match epoch_of(raw.created_utc) {
        None => Err(FeedError::BadTimestamp),
        Some(created) => match calendar_text(created, offset_seconds, timestamp_pattern()) {
            None => Err(FeedError::TimestampOutOfRange),
            Some(created_local) => Ok(
                ItemView {
                    title: unquoted(raw.title),
                    permalink: unquoted(raw.permalink),
                    created,
                    created_local,
                },
            ),
        },
    }
}

/// The post that the compact text `post` decodes to.
pub open spec fn post_of(post: Seq<char>, offset_seconds: int) -> Result<ItemView, FeedError> {
    match raw_entry_of(post) {
        Err(failure) => Err(failure),
        Ok(raw) => item_of(raw, offset_seconds),
    }
}

/// What the first `n` posts decode to: the posts before the first that fails,
/// and its failure.
pub open spec fn decoded_upto(posts: Seq<Seq<char>>, offset_seconds: int, n: nat) -> ListingView
    decreases n,
{
    if n == 0 {
        ListingView { items: Seq::empty(), failure: None }
    } else {
        let before = decoded_upto(posts, offset_seconds, (n - 1) as nat);
        if before.failure is Some {
            before
        } else {
            match post_of(posts[n - 1], offset_seconds) {
                Ok(item) => ListingView { items: before.items.push(item), failure: None },
                Err(failure) => ListingView { items: before.items, failure: Some(failure) },
            }
        }
    }
}

/// What a body decodes to.
pub open spec fn listing_of(body: Seq<char>, offset_seconds: int) -> ListingView {
    match children_of(body) {
        Err(failure) => ListingView { items: Seq::empty(), failure: Some(failure) },
        Ok(posts) => decoded_upto(posts, offset_seconds, posts.len()),
    }
}

/// The pattern after which creation times are written.
fn pattern_text() -> (pattern: &'static str)
    ensures
        pattern@ == timestamp_pattern(),
{
    "%d %B, %Y %H:%M:%S"
}

impl RawEntry {
    /// Decodes the fields: unwraps title and permalink, reads the creation
    /// time and writes it for the zone `offset_seconds` east of UTC.
    pub fn decode(&self, offset_seconds: i32) -> (item: Result<Item, FeedError>)
        ensures
            match item {
                Ok(decoded) => item_of(self@, offset_seconds as int) == Ok::<ItemView, FeedError>(
                    decoded@,
                ),
                Err(failure) => item_of(self@, offset_seconds as int) == Err::<
                    ItemView,
                    FeedError,
                >(failure),
            },
    {
        let created = match parse_epoch(self.created_utc.as_str()) {
            Some(created) => created,
            None => {
                return Err(FeedError::BadTimestamp);
            },
        };
        let created_local = match format_epoch(created, offset_seconds, pattern_text()) {
            Some(created_local) => created_local,
            None => {
                return Err(FeedError::TimestampOutOfRange);
            },
        };
        Ok(
            Item {
                title: strip_quotes(self.title.as_str()),
                permalink: strip_quotes(self.permalink.as_str()),
                created,
                created_local,
            },
        )
    }
}

/// Reads the encoded fields of one post.
fn read_entry(post: &serde_json::Value) -> (entry: Result<RawEntry, FeedError>)
    ensures
        match entry {
            Ok(raw) => raw_entry_of(json_text(*post)) == Ok::<RawEntryView, FeedError>(raw@),
            Err(failure) => raw_entry_of(json_text(*post)) == Err::<RawEntryView, FeedError>(
                failure,
            ),
        },
{
    let data = match member(post, "data") {
        Some(data) => data,
        None => {
            return Err(FeedError::MissingField);
        },
    };
    let title = member(data, "title");
    let permalink = member(data, "permalink");
    let created_utc = member(data, "created_utc");
    match (title, permalink, created_utc) {
        (Some(title), Some(permalink), Some(created_utc)) => Ok(
            RawEntry {
                title: render(title),
                permalink: render(permalink),
                created_utc: render(created_utc),
            },
        ),
        _ => Err(FeedError::MissingField),
    }
}

/// Finds the array of posts in a document.
fn find_posts<'a>(document: &'a serde_json::Value) -> (posts: Option<&'a Vec<serde_json::Value>>)
    ensures
        match posts {
            Some(found) => posts_in(json_text(*document)) == Some(json_texts(found@)),
            None => posts_in(json_text(*document)) is None,
        },
{
    let data = match member(document, "data") {
        Some(data) => data,
        None => {
            return None;
        },
    };
    let children = match member(data, "children") {
        Some(children) => children,
        None => {
            return None;
        },
    };
    elements(children)
}

/// Decodes a response body into posts, for a reader in the zone
/// `offset_seconds` east of UTC.
pub fn decode_listing(body: &str, offset_seconds: i32) -> (listing: Listing)
    ensures
        listing@ == listing_of(body@, offset_seconds as int),
{
    let mut items: Vec<Item> = Vec::new();
    assert(items.deep_view() =~= Seq::<ItemView>::empty());
    let document = match parse(body) {
        Ok(document) => document,
        Err(_) => {
            return Listing { items, failure: Some(FeedError::Malformed) };
        },
    };
    let posts = match find_posts(&document) {
        Some(posts) => posts,
        None => {
            return Listing { items, failure: Some(FeedError::NoListing) };
        },
    };
    let ghost texts = json_texts(posts@);
    let mut i: usize = 0;
    while i < posts.len()
        invariant
            i <= posts.len(),
            texts == json_texts(posts@),
            children_of(body@) == Ok::<Seq<Seq<char>>, FeedError>(texts),
            decoded_upto(texts, offset_seconds as int, i as nat) == (ListingView {
                items: items.deep_view(),
                failure: None,
            }),
        decreases posts.len() - i,
    {
        let ghost before = items.deep_view();
        assert(texts[i as int] == json_text(posts[i as int]));
        let decoded = match read_entry(&posts[i]) {
            Ok(raw) => raw.decode(offset_seconds),
            Err(failure) => Err(failure),
        };
        match decoded {
            Ok(item) => {
                items.push(item);
                assert(items.deep_view() =~= before.push(item@));
            },
            Err(failure) => {
                assert(decoded_upto(texts, offset_seconds as int, (i + 1) as nat) == (ListingView {
                    items: before,
                    failure: Some(failure),
                }));
                proof {
                    lemma_failure_ends_listing(texts, offset_seconds as int, (i + 1) as nat);
                }
                return Listing { items, failure: Some(failure) };
            },
        }
        i += 1;
    }
    Listing { items, failure: None }
}

/// Decoding fails fast: the posts of a listing are the posts before the first
/// that cannot be decoded, each decoded on its own and in place, and the
/// failure of the listing is the failure of that post.
pub proof fn lemma_decoded_until_first_failure(
    posts: Seq<Seq<char>>,
    offset_seconds: int,
    n: nat,
)
    requires
        n <= posts.len(),
    ensures
        decoded_upto(posts, offset_seconds, n).items.len() <= n,
        forall|i: int|
            0 <= i < decoded_upto(posts, offset_seconds, n).items.len() ==> post_of(
                #[trigger] posts[i],
                offset_seconds,
            ) == Ok::<ItemView, FeedError>(decoded_upto(posts, offset_seconds, n).items[i]),
        match decoded_upto(posts, offset_seconds, n).failure {
            None => decoded_upto(posts, offset_seconds, n).items.len() == n,
            Some(failure) => decoded_upto(posts, offset_seconds, n).items.len() < n && post_of(
                posts[decoded_upto(posts, offset_seconds, n).items.len() as int],
                offset_seconds,
            ) == Err::<ItemView, FeedError>(failure),
        },
    decreases n,
{
    if n > 0 {
        lemma_decoded_until_first_failure(posts, offset_seconds, (n - 1) as nat);
    }
}

/// Once a post has failed, the posts after it change nothing.
proof fn lemma_failure_ends_listing(posts: Seq<Seq<char>>, offset_seconds: int, n: nat)
    requires
        n <= posts.len(),
        decoded_upto(posts, offset_seconds, n).failure is Some,
    ensures
        decoded_upto(posts, offset_seconds, posts.len()) == decoded_upto(posts, offset_seconds, n),
    decreases posts.len() - n,
{
    if n < posts.len() {
        lemma_failure_ends_listing(posts, offset_seconds, n + 1);
    }
}

} // verus!

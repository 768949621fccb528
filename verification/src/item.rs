//! A post of the feed, as it is shown to the reader.

use vstd::prelude::*;

verus! {

/// One post, decoded from a listing.
#[derive(Debug, PartialEq, Eq)]
pub struct Item {
    /// The title; also the identity by which a post is recognised again.
    pub title: String,
    /// The path of the post on the site, starting with a slash.
    pub permalink: String,
    /// Creation time in seconds since the Unix epoch.
    pub created: i64,
    /// Creation time as calendar text in the reader's time zone.
    pub created_local: String,
}

/// The mathematical value of an [`Item`].
#[verifier::ext_equal]
pub struct ItemView {
    pub title: Seq<char>,
    pub permalink: Seq<char>,
    pub created: int,
    pub created_local: Seq<char>,
}

impl View for Item {
    type V = ItemView;

    open spec fn view(&self) -> ItemView {
        ItemView {
            title: self.title@,
            permalink: self.permalink@,
            created: self.created as int,
            created_local: self.created_local@,
        }
    }
}

impl DeepView for Item {
    type V = ItemView;

    open spec fn deep_view(&self) -> ItemView {
        self@
    }
}

/// The titles of a sequence of posts, in the same order.
pub open spec fn titles_of(items: Seq<ItemView>) -> Seq<Seq<char>> {
    items.map_values(|item: ItemView| item.title)
}

impl Item {
    /// A second copy of this post.
    pub fn duplicate(&self) -> (copy: Item)
        ensures
            copy@ == self@,
    {
        Item {
            title: self.title.clone(),
            permalink: self.permalink.clone(),
            created: self.created,
            created_local: self.created_local.clone(),
        }
    }
}

} // verus!

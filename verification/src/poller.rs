//! The state that survives from one cycle to the next, and the rule that
//! decides which posts of a snapshot are shown.

use vstd::prelude::*;
use crate::item::{Item, ItemView, titles_of};
use crate::listing::{FeedError, Listing, ListingView, decode_listing, listing_of};

verus! {

/// Whether the post at position `i` of a snapshot is shown.
///
/// While seeding every post is shown. Afterwards a post is shown when its
/// title was not seen in an earlier cycle and does not occur earlier in the
/// same snapshot.
pub open spec fn is_fresh(
    seen: Set<Seq<char>>,
    seeding: bool,
    titles: Seq<Seq<char>>,
    i: int,
) -> bool {
    seeding || (!seen.contains(titles[i]) && forall|j: int| 0 <= j < i ==> titles[j] != titles[i])
}

/// The positions among the first `n` of a snapshot whose posts are shown, in
/// rising order.
pub open spec fn fresh_positions(
    seen: Set<Seq<char>>,
    seeding: bool,
    titles: Seq<Seq<char>>,
    n: nat,
) -> Seq<int>
    decreases n,
{
    if n == 0 {
        Seq::empty()
    } else {
        let before = fresh_positions(seen, seeding, titles, (n - 1) as nat);
        if is_fresh(seen, seeding, titles, n - 1) {
            before.push(n - 1)
        } else {
            before
        }
    }
}

/// The posts of a snapshot that are shown, in the order of the snapshot.
pub open spec fn emitted_of(seen: Set<Seq<char>>, seeding: bool, snapshot: Seq<ItemView>) -> Seq<
    ItemView,
> {
    fresh_positions(seen, seeding, titles_of(snapshot), snapshot.len()).map_values(
        |p: int| snapshot[p],
    )
}

/// The titles known after a snapshot has been taken in.
pub open spec fn seen_after(seen: Set<Seq<char>>, snapshot: Seq<ItemView>) -> Set<Seq<char>> {
    seen.union(titles_of(snapshot).to_set())
}

/// How a cycle that ran to its end went.
#[derive(Clone, Copy, Debug, PartialEq, Eq, Structural)]
pub enum Status {
    /// The first cycle: the posts shown are those that were there already.
    Started,
    /// A later cycle that showed at least one post.
    FoundNew,
    /// A later cycle that showed nothing.
    NoneNew,
}

/// The status of a cycle that showed `shown` posts.
pub open spec fn status_of(seeding: bool, shown: nat) -> Status {
    if seeding {
        Status::Started
    } else if shown > 0 {
        Status::FoundNew
    } else {
        Status::NoneNew
    }
}

/// What one cycle hands to the reader.
#[derive(Debug, PartialEq, Eq)]
pub struct CycleReport {
    /// The posts to show, in order.
    pub emitted: Vec<Item>,
    /// The status of the cycle, or the failure that ended it.
    pub outcome: Result<Status, FeedError>,
}

/// The mathematical value of a [`CycleReport`].
#[verifier::ext_equal]
pub struct CycleReportView {
    pub emitted: Seq<ItemView>,
    pub outcome: Result<Status, FeedError>,
}

impl View for CycleReport {
    type V = CycleReportView;

    open spec fn view(&self) -> CycleReportView {
        CycleReportView { emitted: self.emitted.deep_view(), outcome: self.outcome }
    }
}

/// The report of a cycle on a decoded listing. The posts that were decoded
/// are shown by the rule of [`emitted_of`] even where a later post failed.
pub open spec fn report_of(seen: Set<Seq<char>>, seeding: bool, listing: ListingView)
    -> CycleReportView {
    let emitted = emitted_of(seen, seeding, listing.items);
    CycleReportView {
        emitted,
        outcome: match listing.failure {
            Some(failure) => Err(failure),
            None => Ok(status_of(seeding, emitted.len())),
        },
    }
}

/// What a poller remembers between cycles.
pub struct Poller {
    seen: Vec<String>,
    seeding: bool,
}

impl Poller {
    /// The titles as a sequence of plain values.
    spec fn seen_seq(&self) -> Seq<Seq<char>> {
        self.seen@.map_values(|title: String| title@)
    }

    /// The set of titles that have been shown so far.
    pub closed spec fn seen(&self) -> Set<Seq<char>> {
        self.seen_seq().to_set()
    }

    /// True until the first cycle has been completed.
    pub closed spec fn seeding(&self) -> bool {
        self.seeding
    }

    /// A poller that has seen nothing and is about to run its first cycle.
    pub fn new() -> (poller: Poller)
        ensures
            poller.seen() == Set::<Seq<char>>::empty(),
            poller.seeding(),
    {
        let poller = Poller { seen: Vec::new(), seeding: true };
        assert(poller.seen_seq() =~= Seq::<Seq<char>>::empty());
        assert(poller.seen() =~= Set::<Seq<char>>::empty());
        poller
    }

    /// Whether the first cycle is still to be completed.
    pub fn is_seeding(&self) -> (seeding: bool)
        ensures
            seeding == self.seeding(),
    {
        self.seeding
    }

    /// Whether a post with this title has been shown already.
    pub fn has_seen(&self, title: &String) -> (known: bool)
        ensures
            known == self.seen().contains(title@),
    {
        let mut i: usize = 0;
        while i < self.seen.len()
            invariant
                i <= self.seen.len(),
                forall|j: int| 0 <= j < i ==> self.seen_seq()[j] != title@,
            decreases self.seen.len() - i,
        {
            if self.seen[i] == *title {
                assert(self.seen_seq()[i as int] == title@);
                return true;
            }
            i += 1;
        }
        false
    }

    /// Adds a title to the set of seen titles.
    fn remember(&mut self, title: &String)
        ensures
            final(self).seen() == old(self).seen().insert(title@),
            final(self).seeding() == old(self).seeding(),
    {
        let ghost before = self.seen_seq();
        self.seen.push(title.clone());
        proof {
            assert(self.seen_seq() =~= before.push(title@));
            before.lemma_push_to_set_commute(title@);
        }
    }

    /// Takes in one snapshot: returns the posts to show, in the order of the
    /// snapshot, and remembers the title of every post of the snapshot.
    pub fn absorb(&mut self, snapshot: &Vec<Item>) -> (emitted: Vec<Item>)
        ensures
            emitted.deep_view() == emitted_of(
                old(self).seen(),
                old(self).seeding(),
                snapshot.deep_view(),
            ),
            final(self).seen() == seen_after(old(self).seen(), snapshot.deep_view()),
            final(self).seeding() == old(self).seeding(),
    {
        let ghost seen = self.seen();
        let ghost seeding = self.seeding();
        let ghost items = snapshot.deep_view();
        let ghost titles = titles_of(items);
        let mut emitted: Vec<Item> = Vec::new();
        let mut i: usize = 0;
        assert(titles.take(0).to_set() =~= Set::<Seq<char>>::empty());
        assert(self.seen() =~= seen.union(titles.take(0).to_set()));
        assert(emitted.deep_view() =~= fresh_positions(seen, seeding, titles, 0).map_values(
            |p: int| items[p],
        ));
        while i < snapshot.len()
            invariant
                i <= snapshot.len(),
                items == snapshot.deep_view(),
                items.len() == snapshot.len(),
                titles == titles_of(items),
                self.seeding() == seeding,
                self.seen() == seen.union(titles.take(i as int).to_set()),
                emitted.deep_view() == fresh_positions(seen, seeding, titles, i as nat).map_values(
                    |p: int| items[p],
                ),
            decreases snapshot.len() - i,
        {
            let item = &snapshot[i];
            assert(item@ == items[i as int]);
            assert(titles[i as int] == item.title@);
            let ghost shown = fresh_positions(seen, seeding, titles, i as nat);
            let fresh = self.seeding || !self.has_seen(&item.title);
            proof {
                lemma_take_to_set(titles, i as int, item.title@);
                assert(fresh == is_fresh(seen, seeding, titles, i as int));
            }
            if fresh {
                let ghost before = emitted.deep_view();
                emitted.push(item.duplicate());
                assert(emitted.deep_view() =~= before.push(item@));
                assert(shown.push(i as int).map_values(|p: int| items[p]) =~= shown.map_values(
                    |p: int| items[p],
                ).push(items[i as int]));
                self.remember(&item.title);
            }
            proof {
                assert(titles.take(i + 1) =~= titles.take(i as int).push(titles[i as int]));
                titles.take(i as int).lemma_push_to_set_commute(titles[i as int]);
                assert(self.seen() =~= seen.union(titles.take(i + 1).to_set()));
            }
            i += 1;
        }
        assert(titles.take(i as int) =~= titles);
        emitted
    }
}

impl Poller {
    /// Runs one cycle on a decoded listing. A cycle that ran to its end also
    /// ends the seeding; one that failed leaves it as it was.
    pub fn cycle_on(&mut self, listing: &Listing) -> (report: CycleReport)
        ensures
            report@ == report_of(old(self).seen(), old(self).seeding(), listing@),
            final(self).seen() == seen_after(old(self).seen(), listing@.items),
            final(self).seeding() == (old(self).seeding() && listing@.failure is Some),
    {
        let seeding = self.seeding;
        let emitted = self.absorb(&listing.items);
        match listing.failure {
            Some(failure) => CycleReport { emitted, outcome: Err(failure) },
            None => {
                self.seeding = false;
                let status = if seeding {
                    Status::Started
                } else if emitted.len() > 0 {
                    Status::FoundNew
                } else {
                    Status::NoneNew
                };
                CycleReport { emitted, outcome: Ok(status) }
            },
        }
    }

    /// Runs one cycle on a response body, for a reader in the zone
    /// `offset_seconds` east of UTC.
    pub fn cycle(&mut self, body: &str, offset_seconds: i32) -> (report: CycleReport)
        ensures
            report@ == report_of(
                old(self).seen(),
                old(self).seeding(),
                listing_of(body@, offset_seconds as int),
            ),
            final(self).seen() == seen_after(
                old(self).seen(),
                listing_of(body@, offset_seconds as int).items,
            ),
            final(self).seeding() == (old(self).seeding() && listing_of(
                body@,
                offset_seconds as int,
            ).failure is Some),
    {
        let listing = decode_listing(body, offset_seconds);
        self.cycle_on(&listing)
    }
}

/// A title occurs among the first `n` titles exactly when it stands at one of
/// those positions.
proof fn lemma_take_to_set(titles: Seq<Seq<char>>, n: int, title: Seq<char>)
    requires
        0 <= n <= titles.len(),
    ensures
        titles.take(n).to_set().contains(title) <==> exists|j: int|
            0 <= j < n && titles[j] == title,
{
    let head = titles.take(n);
    if head.to_set().contains(title) {
        let j = choose|j: int| 0 <= j < head.len() && head[j] == title;
        assert(titles[j] == title);
    }
    if exists|j: int| 0 <= j < n && titles[j] == title {
        let j = choose|j: int| 0 <= j < n && titles[j] == title;
        assert(head[j] == title);
    }
}

/// Which of the first `n` posts are shown depends on the first `n` titles
/// only.
proof fn lemma_fresh_positions_of_prefix(
    seen: Set<Seq<char>>,
    seeding: bool,
    titles: Seq<Seq<char>>,
    others: Seq<Seq<char>>,
    n: nat,
)
    requires
        n <= titles.len(),
        n <= others.len(),
        forall|i: int| 0 <= i < n ==> titles[i] == others[i],
    ensures
        fresh_positions(seen, seeding, titles, n) == fresh_positions(seen, seeding, others, n),
    decreases n,
{
    if n > 0 {
        lemma_fresh_positions_of_prefix(seen, seeding, titles, others, (n - 1) as nat);
        assert(is_fresh(seen, seeding, titles, n - 1) == is_fresh(seen, seeding, others, n - 1));
    }
}

/// The shown positions lie inside the part of the snapshot they were taken
/// from, and rise.
proof fn lemma_fresh_positions_rise(
    seen: Set<Seq<char>>,
    seeding: bool,
    titles: Seq<Seq<char>>,
    n: nat,
)
    ensures
        fresh_positions(seen, seeding, titles, n).len() <= n,
        forall|k: int|
            0 <= k < fresh_positions(seen, seeding, titles, n).len() ==> 0 <= (
            #[trigger] fresh_positions(seen, seeding, titles, n)[k]) < n,
        forall|k: int, l: int|
            0 <= k < l < fresh_positions(seen, seeding, titles, n).len() ==> (
            #[trigger] fresh_positions(seen, seeding, titles, n)[k]) < (
            #[trigger] fresh_positions(seen, seeding, titles, n)[l]),
        forall|k: int|
            0 <= k < fresh_positions(seen, seeding, titles, n).len() ==> is_fresh(
                seen,
                seeding,
                titles,
                #[trigger] fresh_positions(seen, seeding, titles, n)[k],
            ),
        forall|i: int|
            0 <= i < n && is_fresh(seen, seeding, titles, i) ==> fresh_positions(
                seen,
                seeding,
                titles,
                n,
            ).contains(i),
    decreases n,
{
    if n > 0 {
        let before = fresh_positions(seen, seeding, titles, (n - 1) as nat);
        let now = fresh_positions(seen, seeding, titles, n);
        lemma_fresh_positions_rise(seen, seeding, titles, (n - 1) as nat);
        assert forall|i: int| 0 <= i < n && is_fresh(seen, seeding, titles, i) implies now.contains(
            i,
        ) by {
            if i < n - 1 {
                let k = choose|k: int| 0 <= k < before.len() && before[k] == i;
                assert(now[k] == i);
            } else {
                assert(now[now.len() - 1] == i);
            }
        }
    }
}

/// Taking in a snapshot with one more post at its end shows what was shown
/// before and, if the added post is fresh, that post after them.
pub proof fn lemma_emitted_push(
    seen: Set<Seq<char>>,
    seeding: bool,
    snapshot: Seq<ItemView>,
    last: ItemView,
)
    ensures
        emitted_of(seen, seeding, snapshot.push(last)) == if is_fresh(
            seen,
            seeding,
            titles_of(snapshot.push(last)),
            snapshot.len() as int,
        ) {
            emitted_of(seen, seeding, snapshot).push(last)
        } else {
            emitted_of(seen, seeding, snapshot)
        },
{
    let longer = snapshot.push(last);
    let n = snapshot.len();
    lemma_fresh_positions_of_prefix(seen, seeding, titles_of(longer), titles_of(snapshot), n);
    lemma_fresh_positions_rise(seen, seeding, titles_of(snapshot), n);
    let before = fresh_positions(seen, seeding, titles_of(snapshot), n);
    assert(before.map_values(|p: int| longer[p]) =~= before.map_values(|p: int| snapshot[p]));
    if is_fresh(seen, seeding, titles_of(longer), n as int) {
        assert(before.push(n as int).map_values(|p: int| longer[p]) =~= before.map_values(
            |p: int| longer[p],
        ).push(last));
    }
}

/// While seeding, every post of the snapshot is shown exactly once and in
/// place, whatever was seen before; and a poller that had seen nothing knows
/// afterwards exactly the titles of the snapshot.
pub proof fn lemma_seeding_shows_all(seen: Set<Seq<char>>, snapshot: Seq<ItemView>)
    ensures
        emitted_of(seen, true, snapshot) == snapshot,
        seen_after(Set::empty(), snapshot) == titles_of(snapshot).to_set(),
    decreases snapshot.len(),
{
    if snapshot.len() == 0 {
        assert(emitted_of(seen, true, snapshot) =~= snapshot);
    } else {
        let shorter = snapshot.drop_last();
        lemma_seeding_shows_all(seen, shorter);
        assert(shorter.push(snapshot.last()) =~= snapshot);
        lemma_emitted_push(seen, true, shorter, snapshot.last());
    }
    assert(seen_after(Set::empty(), snapshot) =~= titles_of(snapshot).to_set());
}

/// Once seeding is over, no post with a title that was seen before is shown;
/// the cycle runs as if the snapshot did not hold such posts at all, so they
/// cannot make it a cycle that found something new.
pub proof fn lemma_seen_title_suppressed(
    seen: Set<Seq<char>>,
    snapshot: Seq<ItemView>,
    title: Seq<char>,
)
    requires
        seen.contains(title),
    ensures
        forall|k: int|
            0 <= k < emitted_of(seen, false, snapshot).len() ==> (#[trigger] emitted_of(
                seen,
                false,
                snapshot,
            )[k]).title != title,
        emitted_of(seen, false, snapshot) == emitted_of(
            seen,
            false,
            snapshot.filter(|item: ItemView| item.title != title),
        ),
        status_of(false, emitted_of(seen, false, snapshot).len()) == status_of(
            false,
            emitted_of(seen, false, snapshot.filter(|item: ItemView| item.title != title)).len(),
        ),
    decreases snapshot.len(),
{
    let others = |item: ItemView| item.title != title;
    let shown = emitted_of(seen, false, snapshot);
    let positions = fresh_positions(seen, false, titles_of(snapshot), snapshot.len());
    lemma_fresh_positions_rise(seen, false, titles_of(snapshot), snapshot.len());
    assert forall|k: int| 0 <= k < shown.len() implies (#[trigger] shown[k]).title != title by {
        assert(is_fresh(seen, false, titles_of(snapshot), positions[k]));
    }
    if snapshot.len() == 0 {
        reveal(Seq::filter);
    } else {
        let shorter = snapshot.drop_last();
        let last = snapshot.last();
        let n = shorter.len() as int;
        assert(shorter.push(last) =~= snapshot);
        lemma_seen_title_suppressed(seen, shorter, title);
        lemma_emitted_push(seen, false, shorter, last);
        shorter.lemma_filter_push(last, others);
        if last.title != title {
            let kept = shorter.filter(others);
            let m = kept.len() as int;
            lemma_emitted_push(seen, false, kept, last);
            let fresh_here = is_fresh(seen, false, titles_of(snapshot), n);
            let fresh_there = is_fresh(seen, false, titles_of(kept.push(last)), m);
            if !fresh_here && !seen.contains(last.title) {
                let j = choose|j: int| 0 <= j < n && titles_of(snapshot)[j] == last.title;
                assert(others(shorter[j]));
                shorter.lemma_filter_contains(others, j);
                let i = choose|i: int| 0 <= i < kept.len() && kept[i] == shorter[j];
                assert(titles_of(kept.push(last))[i] == last.title);
            }
            if !fresh_there && !seen.contains(last.title) {
                let i = choose|i: int| 0 <= i < m && titles_of(kept.push(last))[i] == last.title;
                assert(kept.contains(kept[i]));
                shorter.lemma_filter_contains_rev(others, kept[i]);
                let j = choose|j: int| 0 <= j < shorter.len() && shorter[j] == kept[i];
                assert(titles_of(snapshot)[j] == last.title);
            }
            assert(fresh_here == fresh_there);
        }
    }
}

/// Once seeding is over, the first post of a snapshot that carries a title
/// never seen before is shown.
pub proof fn lemma_new_title_shown(seen: Set<Seq<char>>, snapshot: Seq<ItemView>, i: int)
    requires
        0 <= i < snapshot.len(),
        !seen.contains(snapshot[i].title),
        forall|j: int| 0 <= j < i ==> snapshot[j].title != snapshot[i].title,
    ensures
        emitted_of(seen, false, snapshot).contains(snapshot[i]),
        seen_after(seen, snapshot).contains(snapshot[i].title),
{
    let titles = titles_of(snapshot);
    let positions = fresh_positions(seen, false, titles, snapshot.len());
    lemma_fresh_positions_rise(seen, false, titles, snapshot.len());
    assert(is_fresh(seen, false, titles, i));
    let k = choose|k: int| 0 <= k < positions.len() && positions[k] == i;
    assert(emitted_of(seen, false, snapshot)[k] == snapshot[i]);
    assert(titles[i] == snapshot[i].title);
}

/// The posts that are shown keep the order in which the snapshot holds them:
/// they are the posts at positions of the snapshot that rise from one shown
/// post to the next.
pub proof fn lemma_emitted_in_snapshot_order(
    seen: Set<Seq<char>>,
    seeding: bool,
    snapshot: Seq<ItemView>,
) -> (positions: Seq<int>)
    ensures
        positions.len() == emitted_of(seen, seeding, snapshot).len(),
        forall|k: int|
            0 <= k < positions.len() ==> 0 <= #[trigger] positions[k] < snapshot.len()
                && emitted_of(seen, seeding, snapshot)[k] == snapshot[positions[k]],
        forall|k: int, l: int|
            0 <= k < l < positions.len() ==> #[trigger] positions[k] < #[trigger] positions[l],
{
    let positions = fresh_positions(seen, seeding, titles_of(snapshot), snapshot.len());
    lemma_fresh_positions_rise(seen, seeding, titles_of(snapshot), snapshot.len());
    positions
}

/// Once seeding is over, a cycle shows no title twice and none that was seen
/// before; and every title of a snapshot, shown or not, is known afterwards,
/// so that no later cycle shows it again.
pub proof fn lemma_shown_at_most_once(seen: Set<Seq<char>>, snapshot: Seq<ItemView>)
    ensures
        titles_of(emitted_of(seen, false, snapshot)).no_duplicates(),
        forall|k: int|
            0 <= k < emitted_of(seen, false, snapshot).len() ==> !seen.contains(
                (#[trigger] emitted_of(seen, false, snapshot)[k]).title,
            ),
        forall|i: int|
            0 <= i < snapshot.len() ==> seen_after(seen, snapshot).contains(
                (#[trigger] snapshot[i]).title,
            ),
        seen.subset_of(seen_after(seen, snapshot)),
{
    let titles = titles_of(snapshot);
    let positions = fresh_positions(seen, false, titles, snapshot.len());
    let shown = emitted_of(seen, false, snapshot);
    lemma_fresh_positions_rise(seen, false, titles, snapshot.len());
    assert forall|k: int, l: int| 0 <= k < l < shown.len() implies titles_of(shown)[k]
        != titles_of(shown)[l] by {
        assert(is_fresh(seen, false, titles, positions[l]));
        assert(positions[k] < positions[l]);
        assert(titles[positions[k]] != titles[positions[l]]);
    }
    assert forall|k: int| 0 <= k < shown.len() implies !seen.contains(
        (#[trigger] shown[k]).title,
    ) by {
        assert(is_fresh(seen, false, titles, positions[k]));
    }
    assert forall|i: int| 0 <= i < snapshot.len() implies seen_after(seen, snapshot).contains(
        (#[trigger] snapshot[i]).title,
    ) by {
        assert(titles[i] == snapshot[i].title);
    }
}

} // verus!

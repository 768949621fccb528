use redditor::item::Item;
use redditor::listing::{FeedError, Listing};
use redditor::poller::{CycleReport, Poller, Status};

fn post(title: &str) -> Item {
    Item {
        title: title.to_string(),
        permalink: format!("/r/testsub/comments/{}/", title.to_lowercase()),
        created: 1_700_000_000,
        created_local: "14 November, 2023 22:13:20".to_string(),
    }
}

fn posts(titles: &[&str]) -> Vec<Item> {
    titles.iter().map(|title| post(title)).collect()
}

fn titles_of_items(items: &[Item]) -> Vec<String> {
    items.iter().map(|item| item.title.clone()).collect()
}

fn knows_exactly(poller: &Poller, known: &[&str], unknown: &[&str]) -> bool {
    known.iter().all(|title| poller.has_seen(&title.to_string()))
        && unknown.iter().all(|title| !poller.has_seen(&title.to_string()))
}

fn seeded(titles: &[&str]) -> Poller {
    let mut poller = Poller::new();
    let report = poller.cycle_on(&Listing { items: posts(titles), failure: None });
    assert_eq!(report.outcome, Ok(Status::Started));
    poller
}

#[test]
fn new_poller_has_seen_nothing() {
    let poller = Poller::new();
    assert!(poller.is_seeding());
    assert!(knows_exactly(&poller, &[], &["A", "", "B"]));
}

#[test]
fn seeding_shows_every_post_once_and_remembers_their_titles() {
    let mut poller = Poller::new();
    let snapshot = posts(&["A", "B", "C"]);
    let emitted = poller.absorb(&snapshot);
    assert_eq!(emitted, snapshot);
    assert!(knows_exactly(&poller, &["A", "B", "C"], &["D", "a", ""]));
}

#[test]
fn seeding_shows_posts_of_equal_title_too() {
    let mut poller = Poller::new();
    let mut snapshot = posts(&["A", "B", "A"]);
    snapshot[2].permalink = "/r/testsub/comments/other/".to_string();
    let emitted = poller.absorb(&snapshot);
    assert_eq!(emitted, snapshot);
    assert!(knows_exactly(&poller, &["A", "B"], &["C"]));
}

#[test]
fn first_cycle_reports_a_start_and_ends_the_seeding() {
    let mut poller = Poller::new();
    let report = poller.cycle_on(&Listing { items: posts(&["A", "B"]), failure: None });
    assert_eq!(report, CycleReport { emitted: posts(&["A", "B"]), outcome: Ok(Status::Started) });
    assert!(!poller.is_seeding());
}

#[test]
fn first_cycle_on_an_empty_page() {
    let mut poller = Poller::new();
    let report = poller.cycle_on(&Listing { items: vec![], failure: None });
    assert_eq!(report, CycleReport { emitted: vec![], outcome: Ok(Status::Started) });
    assert!(!poller.is_seeding());
    let report = poller.cycle_on(&Listing { items: posts(&["A"]), failure: None });
    assert_eq!(report, CycleReport { emitted: posts(&["A"]), outcome: Ok(Status::FoundNew) });
}

#[test]
fn seen_title_is_suppressed() {
    let mut poller = seeded(&["T"]);
    let report = poller.cycle_on(&Listing { items: posts(&["T"]), failure: None });
    assert_eq!(report, CycleReport { emitted: vec![], outcome: Ok(Status::NoneNew) });
    assert!(knows_exactly(&poller, &["T"], &["U"]));
}

#[test]
fn seen_title_is_suppressed_whatever_else_the_post_holds() {
    let mut poller = seeded(&["T"]);
    let mut other = post("T");
    other.permalink = "/r/testsub/comments/another/".to_string();
    other.created = 1_800_000_000;
    let report = poller.cycle_on(&Listing { items: vec![other], failure: None });
    assert_eq!(report, CycleReport { emitted: vec![], outcome: Ok(Status::NoneNew) });
}

#[test]
fn seen_title_does_not_count_as_news_beside_a_new_one() {
    let mut with_seen = seeded(&["T"]);
    let mut without = seeded(&["T"]);
    let a = with_seen.cycle_on(&Listing { items: posts(&["T", "N", "T"]), failure: None });
    let b = without.cycle_on(&Listing { items: posts(&["N"]), failure: None });
    assert_eq!(a, b);
    assert_eq!(a.outcome, Ok(Status::FoundNew));
}

#[test]
fn new_post_is_detected() {
    let mut poller = seeded(&["A"]);
    let report = poller.cycle_on(&Listing { items: posts(&["B", "A"]), failure: None });
    assert_eq!(report, CycleReport { emitted: posts(&["B"]), outcome: Ok(Status::FoundNew) });
    assert!(knows_exactly(&poller, &["A", "B"], &["C"]));
}

#[test]
fn new_post_is_detected_at_any_position() {
    for position in 0..4 {
        let mut titles = vec!["A", "B", "C"];
        titles.insert(position, "N");
        let mut poller = seeded(&["A", "B", "C"]);
        let emitted = poller.absorb(&posts(&titles));
        assert_eq!(emitted, posts(&["N"]));
    }
}

#[test]
fn emitted_posts_keep_the_order_of_the_snapshot() {
    let mut poller = seeded(&["A", "B", "C"]);
    let emitted = poller.absorb(&posts(&["Z", "A", "Y", "B", "X", "C", "W"]));
    assert_eq!(titles_of_items(&emitted), ["Z", "Y", "X", "W"]);
}

#[test]
fn emitted_posts_are_not_sorted_by_time() {
    let mut poller = seeded(&[]);
    let mut snapshot = posts(&["late", "early", "middle"]);
    snapshot[0].created = 300;
    snapshot[1].created = 100;
    snapshot[2].created = 200;
    let emitted = poller.absorb(&snapshot);
    assert_eq!(emitted, snapshot);
}

#[test]
fn title_that_repeats_in_a_snapshot_is_shown_once_after_seeding() {
    let mut poller = seeded(&["A"]);
    let mut snapshot = posts(&["N", "A", "N", "M", "N"]);
    snapshot[2].permalink = "/second".to_string();
    let emitted = poller.absorb(&snapshot);
    assert_eq!(emitted, posts(&["N", "M"]));
    assert!(knows_exactly(&poller, &["A", "N", "M"], &["/second"]));
}

#[test]
fn post_is_shown_at_most_once_over_many_cycles() {
    let mut poller = seeded(&["A", "B"]);
    let mut shown: Vec<String> = vec![];
    let pages: [&[&str]; 5] =
        [&["C", "A", "B"], &["D", "C", "A"], &["D", "C", "A"], &["B", "E", "D"], &["A", "C", "E"]];
    for page in pages {
        shown.extend(titles_of_items(&poller.absorb(&posts(page))));
    }
    assert_eq!(shown, ["C", "D", "E"]);
    assert!(knows_exactly(&poller, &["A", "B", "C", "D", "E"], &["F"]));
}

#[test]
fn a_title_that_left_the_page_is_still_known() {
    let mut poller = seeded(&["A"]);
    assert_eq!(poller.absorb(&posts(&["B"])), posts(&["B"]));
    assert_eq!(poller.absorb(&posts(&["C"])), posts(&["C"]));
    assert_eq!(poller.absorb(&posts(&["A", "B", "C"])), vec![]);
}

#[test]
fn titles_are_compared_exactly() {
    let mut poller = seeded(&["Title"]);
    let emitted = poller.absorb(&posts(&["title", "Title ", "Title", "Titl\u{435}"]));
    assert_eq!(titles_of_items(&emitted), ["title", "Title ", "Titl\u{435}"]);
}

#[test]
fn absorb_does_not_end_the_seeding() {
    let mut poller = Poller::new();
    poller.absorb(&posts(&["A"]));
    assert!(poller.is_seeding());
    assert_eq!(poller.absorb(&posts(&["A"])), posts(&["A"]));
}

#[test]
fn failed_cycle_shows_the_posts_before_the_failure() {
    let mut poller = seeded(&["A"]);
    let report =
        poller.cycle_on(&Listing { items: posts(&["B", "A"]), failure: Some(FeedError::BadTimestamp) });
    assert_eq!(
        report,
        CycleReport { emitted: posts(&["B"]), outcome: Err(FeedError::BadTimestamp) }
    );
    assert!(knows_exactly(&poller, &["A", "B"], &[]));
}

#[test]
fn failed_first_cycle_leaves_the_poller_seeding() {
    let mut poller = Poller::new();
    let report = poller.cycle_on(&Listing { items: vec![], failure: Some(FeedError::Malformed) });
    assert_eq!(report, CycleReport { emitted: vec![], outcome: Err(FeedError::Malformed) });
    assert!(poller.is_seeding());
}

#[test]
fn cycle_decodes_and_compares() {
    let body_of = |titles: &[&str]| {
        let posts: Vec<String> = titles
            .iter()
            .map(|title| {
                format!(
                    "{{\"data\":{{\"title\":\"{}\",\"permalink\":\"/{}\",\"created_utc\":60.0}}}}",
                    title, title
                )
            })
            .collect();
        format!("{{\"data\":{{\"children\":[{}]}}}}", posts.join(","))
    };
    let mut poller = Poller::new();
    let first = poller.cycle(&body_of(&["A", "B"]), 0);
    assert_eq!(first.outcome, Ok(Status::Started));
    assert_eq!(titles_of_items(&first.emitted), ["A", "B"]);
    let second = poller.cycle(&body_of(&["C", "A"]), 0);
    assert_eq!(second.outcome, Ok(Status::FoundNew));
    assert_eq!(
        second.emitted,
        vec![Item {
            title: "C".to_string(),
            permalink: "/C".to_string(),
            created: 60,
            created_local: "01 January, 1970 00:01:00".to_string(),
        }]
    );
    let third = poller.cycle(&body_of(&["C", "A"]), 0);
    assert_eq!(third, CycleReport { emitted: vec![], outcome: Ok(Status::NoneNew) });
    let fourth = poller.cycle("not json", 0);
    assert_eq!(fourth, CycleReport { emitted: vec![], outcome: Err(FeedError::Malformed) });
}

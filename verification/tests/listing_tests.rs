use redditor::item::Item;
use redditor::listing::{decode_listing, FeedError, Listing, RawEntry};

fn listing_post(title: &str, permalink: &str, created: &str) -> String {
    format!(
        "{{\"kind\":\"t3\",\"data\":{{\"title\":{},\"permalink\":{},\"created_utc\":{},\"ups\":3}}}}",
        title, permalink, created
    )
}

fn listing_body(posts: &[String]) -> String {
    format!("{{\"kind\":\"Listing\",\"data\":{{\"children\":[{}]}}}}", posts.join(","))
}

fn listing_item(title: &str, permalink: &str, created: i64, created_local: &str) -> Item {
    Item {
        title: title.to_string(),
        permalink: permalink.to_string(),
        created,
        created_local: created_local.to_string(),
    }
}

#[test]
fn decode_listing_reads_posts_in_order() {
    let body = listing_body(&[
        listing_post("\"First\"", "\"/r/testsub/comments/1/first/\"", "1700000000.0"),
        listing_post("\"Second\"", "\"/r/testsub/comments/2/second/\"", "1700000060.0"),
    ]);
    let listing = decode_listing(&body, 0);
    assert_eq!(
        listing,
        Listing {
            items: vec![
                listing_item(
                    "First",
                    "/r/testsub/comments/1/first/",
                    1_700_000_000,
                    "14 November, 2023 22:13:20"
                ),
                listing_item(
                    "Second",
                    "/r/testsub/comments/2/second/",
                    1_700_000_060,
                    "14 November, 2023 22:14:20"
                ),
            ],
            failure: None,
        }
    );
}

#[test]
fn decode_listing_accepts_white_space_and_any_member_order() {
    let body = "\n{ \"data\" : { \"after\" : null, \"children\" : [ { \"data\" : \
                { \"created_utc\" : 86400.0, \"permalink\" : \"/p\", \"title\" : \"T\" } } ] } }\n";
    let listing = decode_listing(body, 0);
    assert_eq!(listing.failure, None);
    assert_eq!(listing.items, vec![listing_item("T", "/p", 86_400, "02 January, 1970 00:00:00")]);
}

#[test]
fn decode_listing_of_an_empty_page() {
    let listing = decode_listing(&listing_body(&[]), 0);
    assert_eq!(listing, Listing { items: vec![], failure: None });
}

#[test]
fn decode_listing_refuses_what_is_not_json() {
    for body in ["", "<html>Too Many Requests</html>", "{\"data\":", "{} trailing"] {
        let listing = decode_listing(body, 0);
        assert_eq!(listing, Listing { items: vec![], failure: Some(FeedError::Malformed) });
    }
}

#[test]
fn decode_listing_wants_the_array_of_posts() {
    let bodies = [
        "{}",
        "null",
        "[]",
        "{\"message\":\"Not Found\",\"error\":404}",
        "{\"data\":{}}",
        "{\"data\":[1,2]}",
        "{\"data\":{\"children\":{}}}",
        "{\"data\":{\"children\":null}}",
        "{\"data\":{\"children\":\"none\"}}",
    ];
    for body in bodies {
        let listing = decode_listing(body, 0);
        assert_eq!(listing, Listing { items: vec![], failure: Some(FeedError::NoListing) });
    }
}

#[test]
fn decode_listing_wants_every_field() {
    let bodies = [
        "{\"data\":{\"children\":[{}]}}",
        "{\"data\":{\"children\":[7]}}",
        "{\"data\":{\"children\":[{\"data\":\"x\"}]}}",
        "{\"data\":{\"children\":[{\"data\":{\"permalink\":\"/p\",\"created_utc\":1.0}}]}}",
        "{\"data\":{\"children\":[{\"data\":{\"title\":\"T\",\"created_utc\":1.0}}]}}",
        "{\"data\":{\"children\":[{\"data\":{\"title\":\"T\",\"permalink\":\"/p\"}}]}}",
    ];
    for body in bodies {
        let listing = decode_listing(body, 0);
        assert_eq!(listing, Listing { items: vec![], failure: Some(FeedError::MissingField) });
    }
}

#[test]
fn decode_listing_fails_on_a_creation_time_without_numeric_content() {
    for created in ["\"yesterday\"", "null", "true", "\"\"", "[]", "\"1700000000.0\""] {
        let body = listing_body(&[listing_post("\"T\"", "\"/p\"", created)]);
        let listing = decode_listing(&body, 0);
        assert_eq!(listing, Listing { items: vec![], failure: Some(FeedError::BadTimestamp) });
    }
}

#[test]
fn decode_listing_fails_on_a_creation_time_of_another_form() {
    for created in ["1700000000", "1700000000.5", "1.7e30", "-1"] {
        let body = listing_body(&[listing_post("\"T\"", "\"/p\"", created)]);
        let listing = decode_listing(&body, 0);
        assert_eq!(listing, Listing { items: vec![], failure: Some(FeedError::BadTimestamp) });
    }
}

#[test]
fn decode_listing_fails_on_a_creation_time_outside_the_calendar() {
    for created in ["99999999999999.0", "-99999999999999.0"] {
        let body = listing_body(&[listing_post("\"T\"", "\"/p\"", created)]);
        let listing = decode_listing(&body, 0);
        assert_eq!(
            listing,
            Listing { items: vec![], failure: Some(FeedError::TimestampOutOfRange) }
        );
    }
}

#[test]
fn decode_listing_keeps_the_posts_before_a_failure() {
    let body = listing_body(&[
        listing_post("\"One\"", "\"/1\"", "0.0"),
        listing_post("\"Two\"", "\"/2\"", "60.0"),
        listing_post("\"Three\"", "\"/3\"", "\"soon\""),
        listing_post("\"Four\"", "\"/4\"", "120.0"),
    ]);
    let listing = decode_listing(&body, 0);
    assert_eq!(
        listing,
        Listing {
            items: vec![
                listing_item("One", "/1", 0, "01 January, 1970 00:00:00"),
                listing_item("Two", "/2", 60, "01 January, 1970 00:01:00"),
            ],
            failure: Some(FeedError::BadTimestamp),
        }
    );
}

#[test]
fn decode_listing_reports_the_first_failure_only() {
    let body = format!(
        "{{\"data\":{{\"children\":[{},{{\"data\":{{}}}},{}]}}}}",
        listing_post("\"One\"", "\"/1\"", "0.0"),
        listing_post("\"Three\"", "\"/3\"", "\"soon\""),
    );
    let listing = decode_listing(&body, 0);
    assert_eq!(listing.items.len(), 1);
    assert_eq!(listing.failure, Some(FeedError::MissingField));
}

#[test]
fn decode_listing_writes_the_time_of_the_readers_zone() {
    let body = listing_body(&[listing_post("\"T\"", "\"/p\"", "1700000000.0")]);
    let cases = [
        (0, "14 November, 2023 22:13:20"),
        (3600, "14 November, 2023 23:13:20"),
        (2 * 3600, "15 November, 2023 00:13:20"),
        (-5 * 3600, "14 November, 2023 17:13:20"),
        (19800, "15 November, 2023 03:43:20"),
    ];
    for (offset, expected) in cases {
        let listing = decode_listing(&body, offset);
        assert_eq!(listing.failure, None);
        assert_eq!(listing.items[0].created, 1_700_000_000);
        assert_eq!(listing.items[0].created_local, expected);
    }
}

#[test]
fn decode_listing_refuses_a_zone_of_a_day_or_more() {
    let body = listing_body(&[listing_post("\"T\"", "\"/p\"", "1700000000.0")]);
    for offset in [86_400, -86_400, i32::MAX, i32::MIN] {
        let listing = decode_listing(&body, offset);
        assert_eq!(
            listing,
            Listing { items: vec![], failure: Some(FeedError::TimestampOutOfRange) }
        );
    }
    assert_eq!(decode_listing(&body, 86_399).failure, None);
    assert_eq!(decode_listing(&body, -86_399).failure, None);
}

#[test]
fn decode_listing_keeps_the_escapes_of_the_document() {
    let body = listing_body(&[listing_post(
        "\"He said \\\"hi\\\" \\u0026 left\\n\"",
        "\"/r/a/b\"",
        "1.0",
    )]);
    let listing = decode_listing(&body, 0);
    assert_eq!(listing.failure, None);
    assert_eq!(listing.items[0].title, "He said \\\"hi\\\" & left\\n");
}

#[test]
fn decode_listing_shows_a_field_that_is_no_string_as_it_is_written() {
    let body = listing_body(&[listing_post("null", "17", "1.0")]);
    let listing = decode_listing(&body, 0);
    assert_eq!(listing.failure, None);
    assert_eq!(listing.items[0].title, "null");
    assert_eq!(listing.items[0].permalink, "17");
}

#[test]
fn raw_entry_decodes_to_an_item() {
    let raw = RawEntry {
        title: "\"Hello World\"".to_string(),
        permalink: "\"/r/testsub/comments/abc/hello_world/\"".to_string(),
        created_utc: "1700000000.0".to_string(),
    };
    assert_eq!(
        raw.decode(0),
        Ok(listing_item(
            "Hello World",
            "/r/testsub/comments/abc/hello_world/",
            1_700_000_000,
            "14 November, 2023 22:13:20"
        ))
    );
}

#[test]
fn raw_entry_with_a_bad_creation_time() {
    let raw = RawEntry {
        title: "\"T\"".to_string(),
        permalink: "\"/p\"".to_string(),
        created_utc: "soon".to_string(),
    };
    assert_eq!(raw.decode(0), Err(FeedError::BadTimestamp));
    let raw = RawEntry { created_utc: "9223372036854775807.0".to_string(), ..raw };
    assert_eq!(raw.decode(0), Err(FeedError::TimestampOutOfRange));
}

#[test]
fn raw_entry_at_the_edge_of_the_calendar() {
    let raw = RawEntry {
        title: "\"T\"".to_string(),
        permalink: "\"/p\"".to_string(),
        created_utc: "-62135596800.0".to_string(),
    };
    let item = raw.decode(0).unwrap();
    assert_eq!(item.created_local, "01 January, 0001 00:00:00");
    let raw = RawEntry { created_utc: "253402300800.0".to_string(), ..raw };
    let item = raw.decode(0).unwrap();
    assert_eq!(item.created_local, "01 January, +10000 00:00:00");
}

#[test]
fn raw_entry_at_the_ends_of_the_calendar() {
    let at = |created: i64, offset_seconds: i32| {
        RawEntry {
            title: "\"T\"".to_string(),
            permalink: "\"/p\"".to_string(),
            created_utc: format!("{}.0", created),
        }
        .decode(offset_seconds)
        .map(|item| item.created_local)
    };
    assert_eq!(at(8_210_266_876_799, 0), Ok("31 December, +262142 23:59:59".to_string()));
    assert_eq!(at(8_210_266_876_800, 0), Err(FeedError::TimestampOutOfRange));
    assert_eq!(at(-8_334_601_228_800, 0), Ok("01 January, -262143 00:00:00".to_string()));
    assert_eq!(at(-8_334_601_228_801, 0), Err(FeedError::TimestampOutOfRange));
    assert!(at(8_210_266_876_799, 86_399).is_ok());
    assert!(at(-8_334_601_228_800, -86_399).is_ok());
    assert_eq!(at(i64::MAX, 0), Err(FeedError::TimestampOutOfRange));
    assert_eq!(at(i64::MIN, 0), Err(FeedError::TimestampOutOfRange));
}

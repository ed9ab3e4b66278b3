use platfoxbot::media::{resolve_media, RawMedia, RawVariant, TwitterMedia};
use platfoxbot::post::{ChannelPost, ChannelPostMedia};
use platfoxbot::twitter::{
    normalize_timeline, FetchError, RawTweet, RawUser, Timeline, TwitterTweet,
};

fn tweet(id: &str, text: &str, keys: &[&str]) -> RawTweet {
    RawTweet {
        id: id.to_string(),
        text: text.to_string(),
        media_keys: keys.iter().map(|k| k.to_string()).collect(),
    }
}

fn photo(key: &str, url: &str) -> RawMedia {
    RawMedia {
        media_key: key.to_string(),
        kind: "photo".to_string(),
        url: Some(url.to_string()),
        variants: None,
    }
}

fn video(key: &str, variants: &[(Option<u32>, &str)]) -> RawMedia {
    RawMedia {
        media_key: key.to_string(),
        kind: "video".to_string(),
        url: None,
        variants: Some(
            variants
                .iter()
                .map(|(b, u)| RawVariant { bitrate: *b, url: u.to_string() })
                .collect(),
        ),
    }
}

fn author(id: &str) -> RawUser {
    RawUser {
        id: id.to_string(),
        name: "Ada Example".to_string(),
        username: "ada".to_string(),
    }
}

#[test]
fn ordering_is_kept_newest_first() {
    let tl = Timeline {
        tweets: vec![tweet("103", "c", &[]), tweet("102", "b", &[]), tweet("101", "a", &[])],
        media: vec![],
        users: vec![author("42")],
    };
    let r = normalize_timeline(&"42".to_string(), Some(100), &tl).unwrap();
    let ids: Vec<u64> = r.iter().map(|t| t.id).collect();
    assert_eq!(ids, vec![103, 102, 101]);
}

#[test]
fn dedup_drops_items_at_or_below_cursor() {
    let tl = Timeline {
        tweets: vec![tweet("103", "c", &[]), tweet("102", "b", &[]), tweet("101", "a", &[])],
        media: vec![],
        users: vec![author("42")],
    };
    let r = normalize_timeline(&"42".to_string(), Some(102), &tl).unwrap();
    let ids: Vec<u64> = r.iter().map(|t| t.id).collect();
    assert_eq!(ids, vec![103]);
}

#[test]
fn rerun_with_advanced_cursor_fetches_nothing() {
    let tl = Timeline {
        tweets: vec![tweet("103", "c", &[]), tweet("102", "b", &[])],
        media: vec![],
        users: vec![author("42")],
    };
    let first = normalize_timeline(&"42".to_string(), Some(100), &tl).unwrap();
    assert_eq!(first.len(), 2);
    let newest = first[0].id;
    let second = normalize_timeline(&"42".to_string(), Some(newest), &tl).unwrap();
    assert!(second.is_empty());
}

#[test]
fn scenario_account_seven() {
    let tl = Timeline {
        tweets: vec![
            tweet("5", "hi http://t.co/x", &["k1"]),
            tweet("3", "no media", &[]),
        ],
        media: vec![photo("k1", "https://pic.example/p.jpg")],
        users: vec![author("7")],
    };
    let r = normalize_timeline(&"7".to_string(), None, &tl).unwrap();
    assert_eq!(r.len(), 2);
    assert_eq!(r[0].id, 5);
    assert_eq!(r[0].text, "hi ");
    assert_eq!(
        r[0].media,
        vec![TwitterMedia::Photo("https://pic.example/p.jpg".to_string())]
    );
    assert_eq!(r[1].id, 3);
    assert_eq!(r[1].text, "no media");
    assert!(r[1].media.is_empty());

    // The newest fetched item decides the cursor candidate.
    assert_eq!(r[0].id, 5);
    // Publish order is oldest first within the account.
    let order = platfoxbot::sync::publish_sequence(&vec![Ok(r)]);
    let ids: Vec<u64> = order.iter().map(|t| t.id).collect();
    assert_eq!(ids, vec![3, 5]);
}

#[test]
fn text_with_media_loses_trailing_token() {
    let tl = Timeline {
        tweets: vec![tweet("9", "look https://t.co/abc", &["k1"])],
        media: vec![photo("k1", "u")],
        users: vec![author("1")],
    };
    let r = normalize_timeline(&"1".to_string(), None, &tl).unwrap();
    assert_eq!(r[0].text, "look ");
}

#[test]
fn text_without_media_keeps_trailing_token() {
    let tl = Timeline {
        tweets: vec![tweet("9", "look https://t.co/abc", &[])],
        media: vec![],
        users: vec![author("1")],
    };
    let r = normalize_timeline(&"1".to_string(), None, &tl).unwrap();
    assert_eq!(r[0].text, "look https://t.co/abc");
}

#[test]
fn empty_timeline_is_fine_without_author() {
    let tl = Timeline { tweets: vec![], media: vec![], users: vec![] };
    let r = normalize_timeline(&"42".to_string(), Some(5), &tl).unwrap();
    assert!(r.is_empty());
}

#[test]
fn missing_author_is_a_schema_error() {
    let tl = Timeline {
        tweets: vec![tweet("5", "x", &[])],
        media: vec![],
        users: vec![author("99")],
    };
    let r = normalize_timeline(&"42".to_string(), None, &tl);
    assert_eq!(r, Err(FetchError::Schema));
}

#[test]
fn unknown_media_key_is_a_schema_error() {
    let tl = Timeline {
        tweets: vec![tweet("5", "x", &["missing"])],
        media: vec![photo("k1", "u")],
        users: vec![author("42")],
    };
    assert_eq!(
        normalize_timeline(&"42".to_string(), None, &tl),
        Err(FetchError::Schema)
    );
}

#[test]
fn video_without_variants_is_a_schema_error() {
    let tl = Timeline {
        tweets: vec![tweet("5", "x", &["k1"])],
        media: vec![video("k1", &[])],
        users: vec![author("42")],
    };
    assert_eq!(
        normalize_timeline(&"42".to_string(), None, &tl),
        Err(FetchError::Schema)
    );
}

#[test]
fn photo_without_url_is_a_schema_error() {
    let tl = Timeline {
        tweets: vec![tweet("5", "x", &["k1"])],
        media: vec![RawMedia {
            media_key: "k1".to_string(),
            kind: "photo".to_string(),
            url: None,
            variants: None,
        }],
        users: vec![author("42")],
    };
    assert_eq!(
        normalize_timeline(&"42".to_string(), None, &tl),
        Err(FetchError::Schema)
    );
}

#[test]
fn nonnumeric_item_id_is_a_schema_error() {
    let tl = Timeline {
        tweets: vec![tweet("not-a-number", "x", &[])],
        media: vec![],
        users: vec![author("42")],
    };
    assert_eq!(
        normalize_timeline(&"42".to_string(), None, &tl),
        Err(FetchError::Schema)
    );
}

#[test]
fn nonnumeric_account_id_is_a_schema_error() {
    let tl = Timeline {
        tweets: vec![tweet("5", "x", &[])],
        media: vec![],
        users: vec![author("abc")],
    };
    assert_eq!(
        normalize_timeline(&"abc".to_string(), None, &tl),
        Err(FetchError::Schema)
    );
}

#[test]
fn filtered_items_do_not_trigger_schema_checks() {
    // An item at or below the cursor is dropped before its media keys are
    // looked at, as long as its identifier still parses.
    let tl = Timeline {
        tweets: vec![tweet("5", "x", &["missing"])],
        media: vec![],
        users: vec![author("42")],
    };
    let r = normalize_timeline(&"42".to_string(), Some(5), &tl).unwrap();
    assert!(r.is_empty());
}

#[test]
fn video_resolution_takes_maximum_bitrate() {
    let m = video("k", &[(Some(240), "A"), (Some(720), "B")]);
    assert_eq!(resolve_media(&m), Some(TwitterMedia::Video("B".to_string())));
}

#[test]
fn video_resolution_tie_takes_last() {
    let m = video("k", &[(Some(720), "A"), (Some(720), "B")]);
    assert_eq!(resolve_media(&m), Some(TwitterMedia::Video("B".to_string())));
}

#[test]
fn video_resolution_undeclared_bitrate_ranks_lowest() {
    let m = video("k", &[(None, "A"), (Some(1), "B"), (None, "C")]);
    assert_eq!(resolve_media(&m), Some(TwitterMedia::Video("B".to_string())));
}

#[test]
fn photo_resolution_uses_direct_url() {
    let m = photo("k", "https://pic.example/p.jpg");
    assert_eq!(
        resolve_media(&m),
        Some(TwitterMedia::Photo("https://pic.example/p.jpg".to_string()))
    );
}

#[test]
fn channel_post_carries_label_and_permalink() {
    let t = TwitterTweet {
        id: 103,
        author_id: 42,
        author_name: "Ada Example".to_string(),
        author_username: "ada".to_string(),
        text: "hello".to_string(),
        media: vec![TwitterMedia::Photo("u1".to_string()), TwitterMedia::Video("u2".to_string())],
    };
    let p = ChannelPost::from(t);
    assert_eq!(p.text, "hello");
    assert_eq!(p.source, "twitter // Ada Example");
    assert_eq!(
        p.source_url,
        Some("https://twitter.com/ada/status/103".to_string())
    );
    assert_eq!(
        p.media,
        vec![
            ChannelPostMedia::Photo("u1".to_string()),
            ChannelPostMedia::Video("u2".to_string())
        ]
    );
}

use platfoxbot::config::cache_location;
use platfoxbot::media::TwitterMedia;
use platfoxbot::sync::{advance_cursors, publish_sequence, CursorStore, PassReport};
use platfoxbot::telegram::TelegramResponse;
use platfoxbot::twitter::{FetchError, TwitterTweet};

fn item(id: u64, author_id: u64) -> TwitterTweet {
    TwitterTweet {
        id,
        author_id,
        author_name: "Ada Example".to_string(),
        author_username: "ada".to_string(),
        text: format!("item {}", id),
        media: vec![TwitterMedia::Photo("u".to_string())],
    }
}

#[test]
fn store_starts_empty_and_remembers() {
    let mut store = CursorStore::new();
    assert_eq!(store.get(&"42".to_string()), None);
    assert_eq!(store.cursor_of(&"42".to_string()), 0);
    store.set("42".to_string(), 103);
    assert_eq!(store.get(&"42".to_string()), Some(103));
    assert_eq!(store.cursor_of(&"42".to_string()), 103);
}

#[test]
fn store_overwrites_and_keeps_other_accounts() {
    let mut store = CursorStore::new();
    store.set("42".to_string(), 103);
    store.set("7".to_string(), 5);
    store.set("42".to_string(), 200);
    assert_eq!(store.get(&"42".to_string()), Some(200));
    assert_eq!(store.get(&"7".to_string()), Some(5));
    assert_eq!(store.entry_list().len(), 2);
}

#[test]
fn cursor_advances_to_newest_fetched_item() {
    let mut store = CursorStore::new();
    store.set("42".to_string(), 100);
    let results: Vec<Result<Vec<TwitterTweet>, FetchError>> =
        vec![Ok(vec![item(103, 42), item(102, 42), item(101, 42)])];
    advance_cursors(&mut store, &results);
    assert_eq!(store.get(&"42".to_string()), Some(103));
}

#[test]
fn cursor_stands_whatever_publishing_does() {
    let mut store = CursorStore::new();
    let results: Vec<Result<Vec<TwitterTweet>, FetchError>> = vec![Ok(vec![item(103, 42)])];
    advance_cursors(&mut store, &results);
    assert_eq!(store.get(&"42".to_string()), Some(103));
    // A later publish failure is only recorded; the store is not involved.
    let mut report = PassReport::new(1);
    report.record_publish(103, &TelegramResponse::Error(429, "rate limited".to_string()));
    assert_eq!(store.get(&"42".to_string()), Some(103));
}

#[test]
fn empty_and_failed_fetches_leave_cursors_alone() {
    let mut store = CursorStore::new();
    store.set("42".to_string(), 100);
    let results: Vec<Result<Vec<TwitterTweet>, FetchError>> =
        vec![Ok(vec![]), Err(FetchError::Transport), Err(FetchError::Schema)];
    advance_cursors(&mut store, &results);
    assert_eq!(store.get(&"42".to_string()), Some(100));
    assert_eq!(store.entry_list().len(), 1);
}

#[test]
fn publish_order_reverses_each_account() {
    let results: Vec<Result<Vec<TwitterTweet>, FetchError>> =
        vec![Ok(vec![item(103, 42), item(102, 42), item(101, 42)])];
    let order = publish_sequence(&results);
    let ids: Vec<u64> = order.iter().map(|t| t.id).collect();
    assert_eq!(ids, vec![101, 102, 103]);
}

#[test]
fn publish_order_concatenates_accounts_in_fetch_order() {
    let results: Vec<Result<Vec<TwitterTweet>, FetchError>> = vec![
        Ok(vec![item(103, 42), item(101, 42)]),
        Err(FetchError::Transport),
        Ok(vec![item(9, 7), item(8, 7)]),
    ];
    let order = publish_sequence(&results);
    let ids: Vec<u64> = order.iter().map(|t| t.id).collect();
    assert_eq!(ids, vec![101, 103, 8, 9]);
}

#[test]
fn fetch_errors_are_aggregated_per_account() {
    let mut report = PassReport::new(3);
    report.record_fetch_error(FetchError::Transport);
    report.record_fetch_error(FetchError::Schema);
    assert_eq!(report.accounts, 3);
    assert_eq!(report.fetch_errors.len(), 2);
    assert!(!report.has_failures());
}

#[test]
fn cache_location_prefers_configuration_unless_ignored() {
    assert_eq!(
        cache_location(false, "cli.json".to_string(), Some("cfg.json".to_string())),
        "cfg.json"
    );
    assert_eq!(cache_location(false, "cli.json".to_string(), None), "cli.json");
    assert_eq!(
        cache_location(true, "cli.json".to_string(), Some("cfg.json".to_string())),
        "cli.json"
    );
}

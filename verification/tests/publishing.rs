use platfoxbot::post::{ChannelPost, ChannelPostMedia};
use platfoxbot::sync::PassReport;
use platfoxbot::telegram::{build_media_group, response_outcome, TelegramClient, TelegramResponse};
use platfoxbot::twitter::TwitterClient;

fn post(text: &str, media: Vec<ChannelPostMedia>, url: Option<&str>) -> ChannelPost {
    ChannelPost {
        text: text.to_string(),
        media,
        source: "twitter // Ada & Co".to_string(),
        source_url: url.map(|u| u.to_string()),
    }
}

#[test]
fn empty_media_means_no_submission() {
    let p = post("just words", vec![], Some("https://x.example/1"));
    assert!(build_media_group(&p).is_none());
}

#[test]
fn caption_with_permalink_is_escaped_and_linked() {
    let p = post(
        "a <b> & c",
        vec![
            ChannelPostMedia::Photo("u1".to_string()),
            ChannelPostMedia::Video("u2".to_string()),
        ],
        Some("https://twitter.com/ada/status/103"),
    );
    let group = build_media_group(&p).unwrap();
    assert_eq!(group.len(), 2);
    assert_eq!(group[0].kind, "photo");
    assert_eq!(group[0].media, "u1");
    assert_eq!(
        group[0].caption,
        "a &lt;b&gt; &amp; c\n\nsrc: <a href=\"https://twitter.com/ada/status/103\">twitter // Ada &amp; Co</a>"
    );
    assert_eq!(group[0].parse_mode, "HTML");
    assert_eq!(group[1].kind, "video");
    assert_eq!(group[1].media, "u2");
    assert_eq!(group[1].caption, "");
    assert_eq!(group[1].parse_mode, "");
}

#[test]
fn caption_without_permalink_is_plain() {
    let p = post("a <b> & c", vec![ChannelPostMedia::Photo("u1".to_string())], None);
    let group = build_media_group(&p).unwrap();
    assert_eq!(group.len(), 1);
    assert_eq!(group[0].caption, "a <b> & c\n\nsrc: twitter // Ada & Co");
    assert_eq!(group[0].parse_mode, "");
}

#[test]
fn rejected_item_maps_to_structured_error() {
    let r = response_outcome(false, Some((429, "rate limited".to_string())));
    assert_eq!(r, TelegramResponse::Error(429, "rate limited".to_string()));
}

#[test]
fn unreadable_error_body_maps_to_generic_error() {
    let r = response_outcome(false, None);
    assert_eq!(
        r,
        TelegramResponse::Error(0, "(platfoxbot) Internal Error".to_string())
    );
}

#[test]
fn successful_status_maps_to_success() {
    assert_eq!(response_outcome(true, None), TelegramResponse::Success);
    assert_eq!(
        response_outcome(true, Some((500, "ignored".to_string()))),
        TelegramResponse::Success
    );
}

#[test]
fn publish_failure_is_recorded_and_the_pass_goes_on() {
    let mut report = PassReport::new(1);
    report.record_publish(5, &TelegramResponse::Error(429, "rate limited".to_string()));
    // The next item is still attempted and counted.
    report.record_publish(6, &TelegramResponse::Success);
    assert_eq!(report.published, 1);
    assert_eq!(report.publish_errors.len(), 1);
    assert_eq!(report.publish_errors[0].item_id, 5);
    assert_eq!(report.publish_errors[0].code, 429);
    assert_eq!(report.publish_errors[0].description, "rate limited");
    assert!(report.has_failures());
}

#[test]
fn clean_pass_reports_no_failures() {
    let mut report = PassReport::new(2);
    report.record_publish(1, &TelegramResponse::Success);
    assert_eq!(report.published, 1);
    assert!(!report.has_failures());
}

#[test]
fn clients_keep_their_credentials() {
    let tw = TwitterClient::new("SECRET-REDACTED".to_string());
    assert_eq!(tw.token, "SECRET-REDACTED");
    let tg = TelegramClient::new("SECRET-REDACTED".to_string());
    assert_eq!(tg.token, "SECRET-REDACTED");
}

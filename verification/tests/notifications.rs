//! Run summaries and the webhook test.

use arkyve_refresh_shop::notifications::{
    deliver_summary_blocking, format_duration, format_gold, post, send_discord_test, test_finished,
    webhook_outcome, RunSummary, TestEventKind, WebhookTestStatus, RESULT_VISIBLE_MS,
};

#[test]
fn format_duration_handles_canonical_cases() {
    assert_eq!(format_duration(0), "0s");
    assert_eq!(format_duration(45), "45s");
    assert_eq!(format_duration(125), "2m05s");
    assert_eq!(format_duration(3600), "1h00m");
    assert_eq!(format_duration(3725), "1h02m");
}

#[test]
fn format_gold_inserts_thousands_separators() {
    assert_eq!(format_gold(0), "0g");
    assert_eq!(format_gold(1), "1g");
    assert_eq!(format_gold(999), "999g");
    assert_eq!(format_gold(1_000), "1,000g");
    assert_eq!(format_gold(280_000), "280,000g");
    assert_eq!(format_gold(1_234_567), "1,234,567g");
}

fn summary(reason: &str) -> RunSummary {
    RunSummary {
        reason: reason.to_owned(),
        elapsed_secs: 125,
        refreshes: 12,
        mystic_bought: 3,
        covenant_bought: 1,
        gold_spent: 1_025_000,
    }
}

#[test]
fn summary_message_contains_all_fields() {
    let msg = summary("stop_when_mystic_medals").to_discord_message();
    assert!(msg.contains("stop_when_mystic_medals"));
    assert!(msg.contains("2m05s"));
    assert!(msg.contains("12"));
    assert!(msg.contains("1,025,000g"));
}

#[test]
fn deliver_summary_blocking_is_noop_for_empty_url() {
    let asked = deliver_summary_blocking(
        "",
        RunSummary {
            reason: "test".into(),
            elapsed_secs: 1,
            refreshes: 0,
            mystic_bought: 0,
            covenant_bought: 0,
            gold_spent: 0,
        },
    );
    assert!(asked.is_none());
}

#[test]
fn a_summary_goes_to_its_webhook() {
    let asked = deliver_summary_blocking("https://discord.com/api/webhooks/1/x", summary("done"))
        .expect("there is an address")
        .expect("which is a good one");
    assert_eq!(asked.url.host, "discord.com");
    assert_eq!(asked.method, "POST");
    assert!(deliver_summary_blocking("nowhere", summary("done"))
        .expect("there is an address")
        .is_err());
}

#[test]
fn what_is_posted_is_json() {
    let asked = post("https://discord.com/api/webhooks/1/x", "say \"hi\"\n").unwrap();
    let body = asked.body;
    let value: serde_json::Value = serde_json::from_str(&body).unwrap();
    assert_eq!(value["content"], "say \"hi\"\n");
    assert_eq!(body, "{\"content\":\"say \\\"hi\\\"\\n\"}");
}

#[test]
fn a_webhook_succeeds_or_says_why() {
    assert_eq!(webhook_outcome(Ok((204, String::new()))), Ok(()));
    let refused = webhook_outcome(Ok((401, "no".to_owned()))).unwrap_err();
    assert!(refused.contains("401"), "{refused}");
    assert!(webhook_outcome(Err("offline".to_owned())).is_err());
}

#[test]
fn webhook_test_status_pending_visible() {
    let mut s = WebhookTestStatus::new();
    s.set(TestEventKind::Pending, 0);
    assert!(matches!(s.visible(0), Some(TestEventKind::Pending)));
}

#[test]
fn webhook_test_status_ok_visible_immediately() {
    let mut s = WebhookTestStatus::new();
    s.set(TestEventKind::Delivered, 0);
    assert!(matches!(s.visible(0), Some(TestEventKind::Delivered)));
}

#[test]
fn webhook_test_status_err_carries_message() {
    let mut s = WebhookTestStatus::new();
    s.set(TestEventKind::Failed("HTTP 401".into()), 0);
    match s.visible(0) {
        Some(TestEventKind::Failed(msg)) => assert_eq!(msg, "HTTP 401"),
        other => panic!("expected a failure, got {other:?}"),
    }
}

#[test]
fn webhook_test_status_empty_until_first_event() {
    assert!(WebhookTestStatus::new().visible(0).is_none());
}

#[test]
fn a_result_fades_and_a_pending_test_does_not() {
    let mut s = WebhookTestStatus::new();
    s.set(TestEventKind::Delivered, 100);
    assert!(s.visible(100 + RESULT_VISIBLE_MS - 1).is_some());
    assert!(s.visible(100 + RESULT_VISIBLE_MS + 1).is_none());
    s.set(TestEventKind::Pending, 100);
    assert!(s.visible(u64::MAX).is_some());
}

#[test]
fn a_second_test_waits_for_the_first() {
    let mut s = WebhookTestStatus::new();
    assert!(s.try_begin(0));
    assert!(!s.try_begin(1));
    s.set(test_finished(Err("offline".to_owned())), 2);
    assert!(matches!(s.visible(2), Some(TestEventKind::Failed(_))));
    assert!(s.try_begin(3));
    assert!(matches!(test_finished(Ok(())), TestEventKind::Delivered));
}

#[test]
fn a_test_is_sent_once_and_only_to_a_webhook() {
    let mut s = WebhookTestStatus::new();
    assert!(send_discord_test("", "hi", &mut s, 0).is_none());
    assert!(s.visible(0).is_none());
    let url = "https://discord.com/api/webhooks/1/x";
    let asked = send_discord_test(url, "hi", &mut s, 5).unwrap().unwrap();
    assert_eq!(asked.body, "{\"content\":\"hi\"}");
    assert!(send_discord_test(url, "hi", &mut s, 6).is_none(), "one is in flight");
}

#[test]
fn a_test_says_how_it_fares() {
    assert_eq!(TestEventKind::Pending.line(), "Sending…");
    assert_eq!(TestEventKind::Delivered.line(), "Sent");
    assert_eq!(
        TestEventKind::Failed("HTTP 404".to_owned()).line(),
        "Failed: HTTP 404"
    );
}

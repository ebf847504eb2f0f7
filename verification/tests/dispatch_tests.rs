//! End-to-end fan-out through the hub and both sinks, and the chat plan.

use botte::chat::chat_plan;
use botte::config::{HookTarget, TelegramCfg, WebHook};
use botte::dispatch::{fan_out, pump_one};
use botte::hub::{Hub, PublishOutcome};

#[test]
fn chat_plan_keeps_order_and_text() {
    let cfg = TelegramCfg { allow_chat_id: vec!["42".to_string(), "99".to_string()] };
    let plan = chat_plan(&cfg, "note");
    assert_eq!(plan.len(), 2);
    assert_eq!(plan[0].chat_id, "42");
    assert_eq!(plan[0].text, "note");
    assert_eq!(plan[1].chat_id, "99");
    assert_eq!(plan[1].text, "note");
}

#[test]
fn ping_reaches_one_webhook_and_one_chat_exactly_once() {
    // One Simple webhook target and one chat identifier "42": publishing
    // "ping" yields exactly one raw POST body "ping" for the webhook URL and
    // exactly one chat send with identifier "42" and text "ping".
    let webhook = WebHook {
        hook_urls: vec![HookTarget::Simple { url: "http://sink.example/hook".to_string() }],
    };
    let telegram = TelegramCfg { allow_chat_id: vec!["42".to_string()] };
    let mut hub = Hub::new(32);
    assert_eq!(hub.try_publish("ping".to_string()), Ok(PublishOutcome::Enqueued));

    let (msg, plan) = pump_one(&mut hub, &webhook, &telegram).expect("one message is queued");
    assert_eq!(msg, "ping");
    assert_eq!(plan.deliveries.len(), 1);
    assert_eq!(plan.deliveries[0].url, "http://sink.example/hook");
    assert_eq!(plan.deliveries[0].body, "ping");
    assert!(!plan.deliveries[0].json);
    assert_eq!(plan.sends.len(), 1);
    assert_eq!(plan.sends[0].chat_id, "42");
    assert_eq!(plan.sends[0].text, "ping");

    // Nothing more: the message was fanned out exactly once.
    assert!(pump_one(&mut hub, &webhook, &telegram).is_none());
}

#[test]
fn fan_out_builds_both_plans() {
    let webhook = WebHook {
        hook_urls: vec![
            HookTarget::Simple { url: "http://a.example".to_string() },
            HookTarget::Simple { url: "http://b.example".to_string() },
        ],
    };
    let telegram = TelegramCfg { allow_chat_id: Vec::new() };
    let f = fan_out("x", &webhook, &telegram);
    assert_eq!(f.deliveries.len(), 2);
    assert_eq!(f.sends.len(), 0);
}

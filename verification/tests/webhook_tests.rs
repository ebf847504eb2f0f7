//! The webhook sink: formatting per hook type, the delivery plan, and the
//! isolation of targets from one another.

use botte::config::{HookTarget, HookType, WebHook};
use botte::webhook::{delivery_plan, fmt_plain, fmt_structured};

#[test]
fn fmt_plain_is_identity() {
    assert_eq!(fmt_plain("alert text".to_string()), "alert text".to_string());
    assert_eq!(fmt_plain(String::new()), String::new());
}

#[test]
fn structured_payload_is_json_with_keyword_and_body() {
    // HookType::StructuredChatPayload with keyword "X" and message "hello":
    // the payload parses as JSON and text.content carries both.
    let payload = fmt_structured("X", "hello");
    let v: serde_json::Value = serde_json::from_str(&payload).expect("payload must be JSON");
    assert_eq!(v["msgtype"], serde_json::Value::String("text".to_string()));
    let content = v["text"]["content"].as_str().expect("text.content must be a string");
    assert!(content.contains("X"));
    assert!(content.contains("hello"));
    assert_eq!(content, "From - X\nhello");
    assert_eq!(v["at"]["isAtAll"], serde_json::Value::Bool(true));
    assert_eq!(
        payload,
        "{\"msgtype\":\"text\",\"text\":{\"content\":\"From - X\\nhello\"},\"at\":{\"isAtAll\":true}}"
    );
}

#[test]
fn structured_payload_escapes_the_body() {
    // Quotes and backslashes in the message must be escaped, or the payload
    // would not parse back.
    let payload = fmt_structured("kw", "he said \"hi\\there\"");
    let v: serde_json::Value = serde_json::from_str(&payload).expect("payload must be JSON");
    assert_eq!(
        v["text"]["content"].as_str().unwrap(),
        "From - kw\nhe said \"hi\\there\""
    );
}

#[test]
fn plan_covers_every_target() {
    let targets = vec![
        HookTarget::Simple { url: "http://one.example/hook".to_string() },
        HookTarget::Detailed {
            url: "http://two.example/hook".to_string(),
            keyword: "ops".to_string(),
            hook_type: HookType::StructuredChatPayload,
        },
        HookTarget::Detailed {
            url: "http://three.example/hook".to_string(),
            keyword: "ignored".to_string(),
            hook_type: HookType::PlainText,
        },
    ];
    let plan = delivery_plan(&targets, "ping");
    assert_eq!(plan.len(), 3);
    assert_eq!(plan[0].url, "http://one.example/hook");
    assert_eq!(plan[0].body, "ping");
    assert!(!plan[0].json);
    assert_eq!(plan[1].url, "http://two.example/hook");
    assert_eq!(plan[1].body, fmt_structured("ops", "ping"));
    assert!(plan[1].json);
    assert_eq!(plan[2].url, "http://three.example/hook");
    assert_eq!(plan[2].body, "ping");
    assert!(!plan[2].json);
}

#[test]
fn failing_target_cannot_starve_another() {
    // One target that always fails (an unroutable destination) beside one
    // healthy target: both receive their own delivery attempt, and the
    // healthy target's delivery is exactly what it would have been alone.
    let failing = HookTarget::Simple { url: "http://always-fails.invalid/hook".to_string() };
    let healthy = HookTarget::Detailed {
        url: "http://healthy.example/hook".to_string(),
        keyword: "X".to_string(),
        hook_type: HookType::StructuredChatPayload,
    };
    let both = delivery_plan(&vec![failing, healthy.clone()], "msg");
    let alone = delivery_plan(&vec![healthy], "msg");
    assert_eq!(both.len(), 2);
    assert_eq!(alone.len(), 1);
    assert_eq!(both[1].url, alone[0].url);
    assert_eq!(both[1].body, alone[0].body);
    assert_eq!(both[1].json, alone[0].json);
}

#[test]
fn empty_registry_is_a_noop() {
    let plan = delivery_plan(&Vec::new(), "anything");
    assert_eq!(plan.len(), 0);
}

#[test]
fn target_well_formedness_is_a_nonempty_url() {
    let good = HookTarget::Simple { url: "http://a.example".to_string() };
    let bad = HookTarget::Detailed {
        url: String::new(),
        keyword: "k".to_string(),
        hook_type: HookType::PlainText,
    };
    assert!(good.is_wf());
    assert!(!bad.is_wf());
    let registry = WebHook { hook_urls: vec![good] };
    assert!(registry.is_wf());
    let broken = WebHook {
        hook_urls: vec![HookTarget::Simple { url: String::new() }],
    };
    assert!(!broken.is_wf());
}

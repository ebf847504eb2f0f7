//! The mailbox poller: sender normalization, host and port splitting, date
//! parsing with its fallback, deduplication and sender filtering.

use botte::mail::{
    email_timestamp, handle_raw_message, normalize_sender, poll_transition, process_email,
    split_host_port, DedupCache, EmailPart, MailError, ParsedEmail, PollPhase,
};

fn email(from: &str, date: &str, body: &str) -> ParsedEmail {
    ParsedEmail {
        subject: "Subject".to_string(),
        from: from.to_string(),
        to: "ops@example.net".to_string(),
        date: date.to_string(),
        body: body.to_string(),
        subparts: Vec::new(),
    }
}

#[test]
fn sender_is_normalized_between_angle_brackets() {
    assert_eq!(normalize_sender("Alice <alice@example.org>"), "alice@example.org");
    assert_eq!(normalize_sender("alice@example.org"), "alice@example.org");
    assert_eq!(normalize_sender("  bob@example.org  "), "bob@example.org");
    assert_eq!(normalize_sender("\"A <weird> name\" <a@b.c>"), "a@b.c");
    assert_eq!(normalize_sender("Broken <no-close@x"), "no-close@x");
    assert_eq!(normalize_sender(""), "");
}

#[test]
fn imap_service_splits_into_host_and_port() {
    assert_eq!(
        split_host_port("imap.example.org:1993"),
        Ok(("imap.example.org".to_string(), 1993))
    );
    assert_eq!(
        split_host_port("imap.example.org"),
        Ok(("imap.example.org".to_string(), 993))
    );
    // More than one colon: the whole value is the host, default port.
    assert_eq!(split_host_port("a:1:2"), Ok(("a:1:2".to_string(), 993)));
    assert_eq!(split_host_port("host:notaport"), Err(MailError::InvalidPort));
    assert_eq!(split_host_port("host:65535"), Ok(("host".to_string(), 65535)));
    assert_eq!(split_host_port("host:65536"), Err(MailError::InvalidPort));
    assert_eq!(split_host_port("host:"), Err(MailError::InvalidPort));
}

#[test]
fn date_header_parses_or_falls_back() {
    let (ts, fallback) = email_timestamp("Tue, 1 Jul 2003 10:52:37 +0200", 555);
    assert_eq!(ts, 1057049557);
    assert!(!fallback);
    let (ts, fallback) = email_timestamp("not a date", 555);
    assert_eq!(ts, 555);
    assert!(fallback);
}

#[test]
fn duplicate_email_is_published_at_most_once() {
    // Two poll cycles observe the same (timestamp, sender) email: publish
    // happens once.
    let mut cache = DedupCache::new();
    let allow = vec!["alice@example.org".to_string()];
    let em = email("Alice <alice@example.org>", "Tue, 1 Jul 2003 10:52:37 +0200", "the alert");
    let first = process_email(&mut cache, &allow, &em, 0);
    assert_eq!(first.publish, Some("the alert".to_string()));
    assert!(first.mark_seen);
    assert!(first.fresh);
    assert_eq!(cache.record_count(), 1);
    let second = process_email(&mut cache, &allow, &em, 0);
    assert_eq!(second.publish, None);
    assert!(second.mark_seen);
    assert!(!second.fresh);
    assert_eq!(cache.record_count(), 1);
}

#[test]
fn unparseable_date_uses_the_clock_for_the_key() {
    let mut cache = DedupCache::new();
    let allow = vec!["alice@example.org".to_string()];
    let em = email("alice@example.org", "garbage", "text");
    let first = process_email(&mut cache, &allow, &em, 777);
    assert!(first.fresh);
    let second = process_email(&mut cache, &allow, &em, 777);
    assert!(!second.fresh);
    // A different clock reading makes a different key.
    let third = process_email(&mut cache, &allow, &em, 778);
    assert!(third.fresh);
}

#[test]
fn disallowed_sender_never_reaches_the_hub() {
    let mut cache = DedupCache::new();
    let allow = vec!["alice@example.org".to_string()];
    let em = email("Mallory <mallory@example.org>", "Tue, 1 Jul 2003 10:52:37 +0200", "spam");
    let decision = process_email(&mut cache, &allow, &em, 0);
    assert_eq!(decision.publish, None);
    // Left unread and nothing recorded.
    assert!(!decision.mark_seen);
    assert!(!decision.fresh);
    assert_eq!(cache.record_count(), 0);
}

#[test]
fn single_part_body_is_the_top_level_body() {
    let em = email("alice@example.org", "d", "plain body");
    let mut cache = DedupCache::new();
    let allow = vec!["alice@example.org".to_string()];
    let decision = process_email(&mut cache, &allow, &em, 0);
    assert_eq!(decision.publish, Some("plain body".to_string()));
}

#[test]
fn first_text_subpart_wins() {
    let mut em = email("alice@example.org", "d", "top level");
    em.subparts = vec![
        EmailPart { content_type: Some("application/pdf".to_string()), body: "binary".to_string() },
        EmailPart { content_type: None, body: "headerless".to_string() },
        EmailPart {
            content_type: Some("text/html; charset=utf-8".to_string()),
            body: "<p>html</p>".to_string(),
        },
        EmailPart {
            content_type: Some("text/plain".to_string()),
            body: "plain".to_string(),
        },
    ];
    let mut cache = DedupCache::new();
    let allow = vec!["alice@example.org".to_string()];
    let decision = process_email(&mut cache, &allow, &em, 0);
    assert_eq!(decision.publish, Some("<p>html</p>".to_string()));
}

#[test]
fn no_matching_subpart_yields_empty_body() {
    let mut em = email("alice@example.org", "d", "top level");
    em.subparts = vec![EmailPart {
        content_type: Some("application/json".to_string()),
        body: "{}".to_string(),
    }];
    let mut cache = DedupCache::new();
    let allow = vec!["alice@example.org".to_string()];
    let decision = process_email(&mut cache, &allow, &em, 0);
    assert_eq!(decision.publish, Some(String::new()));
}

#[test]
fn raw_message_is_parsed_and_filtered() {
    let raw = b"From: Alice <alice@example.org>\r\n\
To: ops@example.net\r\n\
Subject: Disk alert\r\n\
Date: Tue, 1 Jul 2003 10:52:37 +0200\r\n\
\r\n\
disk is at 95%";
    let mut cache = DedupCache::new();
    let allow = vec!["alice@example.org".to_string()];
    let decision = handle_raw_message(&mut cache, &allow, raw, 0).expect("mail must parse");
    assert_eq!(decision.publish, Some("disk is at 95%".to_string()));
    assert!(decision.mark_seen);
    // The same raw message again: recorded, not re-published.
    let again = handle_raw_message(&mut cache, &allow, raw, 0).expect("mail must parse");
    assert_eq!(again.publish, None);
    assert!(again.mark_seen);
}

#[test]
fn multipart_message_prefers_the_text_subpart() {
    let raw = b"From: Alice <alice@example.org>\r\n\
Subject: multi\r\n\
Date: Tue, 1 Jul 2003 10:52:37 +0200\r\n\
Content-Type: multipart/alternative; boundary=\"sep\"\r\n\
\r\n\
--sep\r\n\
Content-Type: text/plain; charset=utf-8\r\n\
\r\n\
hello plain\r\n\
--sep\r\n\
Content-Type: text/html; charset=utf-8\r\n\
\r\n\
<p>hello html</p>\r\n\
--sep--\r\n";
    let mut cache = DedupCache::new();
    let allow = vec!["alice@example.org".to_string()];
    let decision = handle_raw_message(&mut cache, &allow, raw, 0).expect("mail must parse");
    assert_eq!(decision.publish, Some("hello plain".to_string()));
}

#[test]
fn poll_cycle_restarts_from_connect_on_any_failure() {
    let phases = [
        PollPhase::Connect,
        PollPhase::Authenticate,
        PollPhase::SelectInbox,
        PollPhase::SearchUnseen,
        PollPhase::FetchOne,
        PollPhase::MarkSeenBatch,
        PollPhase::Sleep,
    ];
    for p in phases {
        assert_eq!(poll_transition(p, false, false), PollPhase::Connect);
        assert_eq!(poll_transition(p, false, true), PollPhase::Connect);
    }
    assert_eq!(poll_transition(PollPhase::Connect, true, false), PollPhase::Authenticate);
    assert_eq!(poll_transition(PollPhase::Authenticate, true, false), PollPhase::SelectInbox);
    assert_eq!(poll_transition(PollPhase::SelectInbox, true, false), PollPhase::SearchUnseen);
    assert_eq!(poll_transition(PollPhase::SearchUnseen, true, true), PollPhase::FetchOne);
    assert_eq!(poll_transition(PollPhase::SearchUnseen, true, false), PollPhase::MarkSeenBatch);
    assert_eq!(poll_transition(PollPhase::FetchOne, true, true), PollPhase::FetchOne);
    assert_eq!(poll_transition(PollPhase::FetchOne, true, false), PollPhase::MarkSeenBatch);
    assert_eq!(poll_transition(PollPhase::MarkSeenBatch, true, false), PollPhase::Sleep);
    assert_eq!(poll_transition(PollPhase::Sleep, true, false), PollPhase::SearchUnseen);
}

#[test]
fn mail_error_has_a_message() {
    assert_eq!(MailError::InvalidPort.message(), "invalid IMAP service port");
}

//! The broadcast hub: FIFO order, backpressure on a full queue, and closure.

use botte::hub::{ChannelClosed, Hub, PublishOutcome};

#[test]
fn publish_dequeue_fifo() {
    let mut hub = Hub::new(32);
    assert_eq!(hub.try_publish("first".to_string()), Ok(PublishOutcome::Enqueued));
    assert_eq!(hub.try_publish("second".to_string()), Ok(PublishOutcome::Enqueued));
    assert_eq!(hub.try_publish("third".to_string()), Ok(PublishOutcome::Enqueued));
    assert_eq!(hub.dequeue(), Some("first".to_string()));
    assert_eq!(hub.dequeue(), Some("second".to_string()));
    assert_eq!(hub.dequeue(), Some("third".to_string()));
    assert_eq!(hub.dequeue(), None);
}

#[test]
fn full_queue_asks_caller_to_wait() {
    // Queue capacity 2, three synchronous publishes from one producer with no
    // consumer running: the third must wait, not fail or drop.
    let mut hub = Hub::new(2);
    assert_eq!(hub.try_publish("m1".to_string()), Ok(PublishOutcome::Enqueued));
    assert_eq!(hub.try_publish("m2".to_string()), Ok(PublishOutcome::Enqueued));
    assert_eq!(hub.try_publish("m3".to_string()), Ok(PublishOutcome::MustWait));
    assert_eq!(hub.len(), 2);
    // The consumer drains one slot; the suspended publish retries and goes
    // through, and nothing was lost or reordered.
    assert_eq!(hub.dequeue(), Some("m1".to_string()));
    assert_eq!(hub.try_publish("m3".to_string()), Ok(PublishOutcome::Enqueued));
    assert_eq!(hub.dequeue(), Some("m2".to_string()));
    assert_eq!(hub.dequeue(), Some("m3".to_string()));
    assert_eq!(hub.dequeue(), None);
}

#[test]
fn closed_hub_rejects_publish() {
    let mut hub = Hub::new(4);
    assert_eq!(hub.try_publish("kept".to_string()), Ok(PublishOutcome::Enqueued));
    hub.close();
    assert!(hub.closed());
    assert_eq!(hub.try_publish("late".to_string()), Err(ChannelClosed));
    // What was accepted before the close still drains.
    assert_eq!(hub.dequeue(), Some("kept".to_string()));
    assert_eq!(hub.dequeue(), None);
}

#[test]
fn capacity_is_kept() {
    let mut hub = Hub::new(1);
    assert_eq!(hub.cap(), 1);
    assert_eq!(hub.len(), 0);
    assert_eq!(hub.try_publish("only".to_string()), Ok(PublishOutcome::Enqueued));
    assert_eq!(hub.len(), 1);
    assert_eq!(hub.try_publish("over".to_string()), Ok(PublishOutcome::MustWait));
    assert_eq!(hub.len(), 1);
}

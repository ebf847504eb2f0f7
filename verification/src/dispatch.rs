//! The hub's consumption loop, one step at a time: dequeue the oldest
//! message and hand a clone of it to every registered dispatcher. The
//! embedding binary runs the loop, posts the webhook deliveries concurrently
//! and performs the chat sends sequentially; the step here fixes, in one
//! place, exactly what every sink receives for the dequeued message.

use vstd::prelude::*;

use crate::chat::{chat_plan, sends_ok, ChatSend};
use crate::config::{TelegramCfg, WebHook};
use crate::hub::Hub;
use crate::webhook::{deliveries_ok, delivery_plan, Delivery};

verus! {

/// The fan-out prepared for one dequeued message: the webhook deliveries
/// (dispatched concurrently) and the chat sends (dispatched sequentially).
pub struct FanOut {
    pub deliveries: Vec<Delivery>,
    pub sends: Vec<ChatSend>,
}

/// Plans the fan-out of one message to every registered dispatcher.
pub fn fan_out(msg: &str, webhook: &WebHook, telegram: &TelegramCfg) -> (r: FanOut)
    ensures
        deliveries_ok(webhook.hook_urls@, msg@, r.deliveries@),
        sends_ok(telegram.allow_chat_id@, msg@, r.sends@),
{
    FanOut { deliveries: delivery_plan(&webhook.hook_urls, msg), sends: chat_plan(telegram, msg) }
}

/// One step of the consumption loop: removes the oldest queued message and
/// plans its fan-out. The loop processes one message fully before dequeuing
/// the next, so hub throughput is serialized here while the fan-out of each
/// message runs concurrently. An empty queue yields no step and changes
/// nothing.
pub fn pump_one(hub: &mut Hub, webhook: &WebHook, telegram: &TelegramCfg) -> (r: Option<
    (String, FanOut),
>)
    requires
        old(hub).wf(),
    ensures
        final(hub).wf(),
        final(hub).published() == old(hub).published(),
        match r {
            Some((msg, f)) => {
                &&& old(hub).queue_view().len() > 0
                &&& msg@ == old(hub).queue_view()[0]
                &&& final(hub).queue_view() == old(hub).queue_view().drop_first()
                &&& final(hub).delivered() == old(hub).delivered().push(msg@)
                &&& deliveries_ok(webhook.hook_urls@, msg@, f.deliveries@)
                &&& sends_ok(telegram.allow_chat_id@, msg@, f.sends@)
            },
            None => {
                &&& old(hub).queue_view().len() == 0
                &&& final(hub).queue_view() == old(hub).queue_view()
                &&& final(hub).delivered() == old(hub).delivered()
            },
        },
{
    match hub.dequeue() {
        None => None,
        Some(msg) => {
            let f = fan_out(msg.as_str(), webhook, telegram);
            Some((msg, f))
        },
    }
}

} // verus!

//! The chat sink: delivers each broadcast message to every subscribed chat
//! identifier, in the configured order. The embedding binary performs the
//! sends sequentially, awaiting each before issuing the next, and a failed
//! send is logged and never aborts the remaining identifiers; the plan built
//! here fixes what is sent to whom, independent of any outcome.

use vstd::prelude::*;

use crate::config::TelegramCfg;

verus! {

/// One chat delivery: an opaque chat identifier and the text to send to it.
pub struct ChatSend {
    pub chat_id: String,
    pub text: String,
}

/// What a correct chat plan is: one send per subscribed identifier, in
/// configuration order, each carrying the message unchanged.
pub open spec fn sends_ok(ids: Seq<String>, m: Seq<char>, ss: Seq<ChatSend>) -> bool {
    &&& ss.len() == ids.len()
    &&& forall|i: int|
        0 <= i < ids.len() ==> {
            &&& (#[trigger] ss[i]).chat_id@ == ids[i]@
            &&& ss[i].text@ == m
        }
}

/// Builds the sequential send plan for one message: one send per subscribed
/// chat identifier, in configuration order, each carrying the same text.
/// An entry is a function of its own identifier and the message alone, so the
/// failure of one send never changes what any later identifier is sent.
pub fn chat_plan(cfg: &TelegramCfg, msg: &str) -> (r: Vec<ChatSend>)
    ensures
        sends_ok(cfg.allow_chat_id@, msg@, r@),
{
    let n = cfg.allow_chat_id.len();
    let mut r: Vec<ChatSend> = Vec::new();
    let mut i: usize = 0;
    while i < n
        invariant
            n == cfg.allow_chat_id@.len(),
            0 <= i <= n,
            r@.len() == i,
            forall|k: int|
                0 <= k < i ==> {
                    &&& (#[trigger] r@[k]).chat_id@ == cfg.allow_chat_id@[k]@
                    &&& r@[k].text@ == msg@
                },
        decreases n - i,
    {
        let send = ChatSend { chat_id: cfg.allow_chat_id[i].clone(), text: msg.to_owned() };
        r.push(send);
        i += 1;
    }
    r
}

} // verus!

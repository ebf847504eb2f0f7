//! The webhook sink: selects a formatter per configured target and prepares
//! one independent delivery per target. The embedding binary posts each
//! prepared delivery concurrently, so a slow or failing destination never
//! delays the others; the plan built here is what makes that isolation hold,
//! because each entry is computed from its own target and the message alone.

use vstd::prelude::*;
use vstd::string::{StrSliceExecFns, StringExecFns};

use crate::config::{HookTarget, HookType};

verus! {

/// What serde_json's string serializer produces for a given string: the JSON
/// string literal, quotes and escapes included. A function of the characters
/// alone.
pub uninterp spec fn json_string_of(s: Seq<char>) -> Seq<char>;

/// Characters that the JSON string serializer passes through unchanged:
/// everything from the space character upwards except the quote and the
/// backslash.
pub open spec fn json_plain(s: Seq<char>) -> bool {
    forall|i: int|
        0 <= i < s.len() ==> ((#[trigger] s[i]) as u32 >= 32 && s[i] != '"' && s[i] != '\\')
}

/// Relies on serde_json::to_string applied to a string slice: it returns the
/// JSON string literal for the input, a function of the characters alone, and
/// leaves every character outside its escape table (quote, backslash, and
/// control characters below the space) unchanged between the two quotes.
/// Serializing a string never fails.
#[verifier::external_body]
fn json_quote(s: &str) -> (r: String)
    ensures
        r@ == json_string_of(s@),
        json_plain(s@) ==> r@ == seq!['"'] + s@ + seq!['"'],
{
    serde_json::to_string(s).unwrap_or_default()
}

/// The text carried inside the structured envelope: the source keyword and
/// the message body.
pub open spec fn structured_content(kw: Seq<char>, m: Seq<char>) -> Seq<char> {
    ("From - "@ + kw + "\n"@) + m
}

/// The structured chat envelope: a JSON object with `msgtype` `"text"`, the
/// formatted text under `text.content`, and `at.isAtAll` set to `true`.
pub open spec fn structured_payload(kw: Seq<char>, m: Seq<char>) -> Seq<char> {
    ("{\"msgtype\":\"text\",\"text\":{\"content\":"@ + json_string_of(structured_content(kw, m)))
        + "},\"at\":{\"isAtAll\":true}}"@
}

/// The plain formatter: the message is delivered unchanged.
pub fn fmt_plain(m: String) -> (r: String)
    ensures
        r@ == m@,
{
    m
}

/// The structured formatter: wraps the keyword and message in the structured
/// chat JSON envelope.
pub fn fmt_structured(kw: &str, m: &str) -> (r: String)
    ensures
        r@ == structured_payload(kw@, m@),
{
    let mut content: String = "From - ".to_owned();
    content.append(kw);
    content.append("\n");
    content.append(m);
    let quoted = json_quote(content.as_str());
    let mut out: String = "{\"msgtype\":\"text\",\"text\":{\"content\":".to_owned();
    out.append(quoted.as_str());
    out.append("},\"at\":{\"isAtAll\":true}}");
    out
}

/// The payload a given target receives for a given message, per the target's
/// variant and hook type.
pub open spec fn body_for(t: HookTarget, m: Seq<char>) -> Seq<char> {
    match t {
        HookTarget::Simple { .. } => m,
        HookTarget::Detailed { keyword, hook_type, .. } => match hook_type {
            HookType::PlainText => m,
            HookType::StructuredChatPayload => structured_payload(keyword@, m),
        },
    }
}

/// Whether the payload for a target is the JSON envelope.
pub open spec fn is_json_for(t: HookTarget) -> bool {
    match t {
        HookTarget::Simple { .. } => false,
        HookTarget::Detailed { hook_type, .. } => hook_type == HookType::StructuredChatPayload,
    }
}

/// Selects and applies the formatter for one target, at dispatch time.
pub fn format_for(t: &HookTarget, msg: &str) -> (r: String)
    ensures
        r@ == body_for(*t, msg@),
{
    match t {
        HookTarget::Simple { .. } => fmt_plain(msg.to_owned()),
        HookTarget::Detailed { keyword, hook_type, .. } => match hook_type {
            HookType::PlainText => fmt_plain(msg.to_owned()),
            HookType::StructuredChatPayload => fmt_structured(keyword.as_str(), msg),
        },
    }
}

/// The destination of one target.
pub fn target_url(t: &HookTarget) -> (r: String)
    ensures
        r@ == t.url_spec(),
{
    match t {
        HookTarget::Simple { url } => url.clone(),
        HookTarget::Detailed { url, .. } => url.clone(),
    }
}

/// One prepared webhook delivery: where to post, what to post, and whether
/// the payload is the JSON envelope (posted with a JSON content type).
pub struct Delivery {
    pub url: String,
    pub body: String,
    pub json: bool,
}

/// What a correct delivery plan is: one entry per configured target, in
/// registry order, each carrying its own target's destination and formatted
/// payload for the message.
pub open spec fn deliveries_ok(targets: Seq<HookTarget>, m: Seq<char>, ds: Seq<Delivery>) -> bool {
    &&& ds.len() == targets.len()
    &&& forall|i: int|
        0 <= i < targets.len() ==> {
            &&& (#[trigger] ds[i]).url@ == targets[i].url_spec()
            &&& ds[i].body@ == body_for(targets[i], m)
            &&& ds[i].json == is_json_for(targets[i])
        }
}

/// Builds one independent delivery per configured target, in registry order.
/// An empty registry yields an empty plan: a no-op, not an error. Each entry
/// is a function of its own target and the message alone, so no target's
/// outcome can change what any other target is sent.
pub fn delivery_plan(targets: &Vec<HookTarget>, msg: &str) -> (r: Vec<Delivery>)
    ensures
        deliveries_ok(targets@, msg@, r@),
{
    let n = targets.len();
    let mut r: Vec<Delivery> = Vec::new();
    let mut i: usize = 0;
    while i < n
        invariant
            n == targets@.len(),
            0 <= i <= n,
            r@.len() == i,
            forall|k: int|
                0 <= k < i ==> {
                    &&& (#[trigger] r@[k]).url@ == targets@[k].url_spec()
                    &&& r@[k].body@ == body_for(targets@[k], msg@)
                    &&& r@[k].json == is_json_for(targets@[k])
                },
        decreases n - i,
    {
        let t = &targets[i];
        let json = match t {
            HookTarget::Simple { .. } => false,
            HookTarget::Detailed { hook_type, .. } => match hook_type {
                HookType::PlainText => false,
                HookType::StructuredChatPayload => true,
            },
        };
        let d = Delivery { url: target_url(t), body: format_for(t, msg), json };
        r.push(d);
        i += 1;
    }
    r
}

/// Isolation law: the delivery prepared for a target depends on that target
/// and the message alone. In particular, replacing every other entry of the
/// registry — for instance by targets that always fail to accept their post —
/// leaves this target's delivery unchanged, so one failing target can never
/// prevent delivery to another.
pub proof fn lemma_webhook_isolation(
    t1: Seq<HookTarget>,
    t2: Seq<HookTarget>,
    m: Seq<char>,
    i: int,
    j: int,
)
    requires
        0 <= i < t1.len(),
        0 <= j < t2.len(),
        t1[i] == t2[j],
    ensures
        body_for(t1[i], m) == body_for(t2[j], m),
        is_json_for(t1[i]) == is_json_for(t2[j]),
        t1[i].url_spec() == t2[j].url_spec(),
{
}

} // verus!

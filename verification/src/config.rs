//! Configuration data: read once at process start and shared read-only with
//! every component afterwards. The embedding binary parses its configuration
//! file and hands these plain values in.

use vstd::prelude::*;
use vstd::string::StrSliceExecFns;

verus! {

/// How a webhook target's payload is formatted at dispatch time.
#[derive(Clone, Copy, PartialEq, Eq, Structural, Debug)]
pub enum HookType {
    /// The message text is delivered unchanged.
    PlainText,
    /// The message is wrapped in the structured chat JSON envelope, prefixed
    /// with the target's keyword.
    StructuredChatPayload,
}

/// One configured webhook destination. The variant chooses the formatter
/// applied at dispatch time, never at registration time.
#[derive(Clone, Debug)]
pub enum HookTarget {
    /// Deliver the raw text payload, no transformation.
    Simple { url: String },
    /// Deliver a payload formatted per `hook_type`, with `keyword` naming the
    /// source in the formatted text.
    Detailed { url: String, keyword: String, hook_type: HookType },
}

impl HookTarget {
    /// The destination of this target.
    pub open spec fn url_spec(&self) -> Seq<char> {
        match self {
            HookTarget::Simple { url } => url@,
            HookTarget::Detailed { url, .. } => url@,
        }
    }

    /// A target is well formed when its destination is non-empty.
    pub open spec fn wf(&self) -> bool {
        self.url_spec().len() > 0
    }

    /// Checks well-formedness of one target.
    pub fn is_wf(&self) -> (r: bool)
        ensures
            r == self.wf(),
    {
        let url: &String = match self {
            HookTarget::Simple { url } => url,
            HookTarget::Detailed { url, .. } => url,
        };
        url.as_str().unicode_len() > 0
    }
}

/// The webhook sink's registry: its configured delivery targets.
#[derive(Clone, Debug)]
pub struct WebHook {
    pub hook_urls: Vec<HookTarget>,
}

impl WebHook {
    /// Every configured target has a destination.
    pub open spec fn wf(&self) -> bool {
        forall|i: int| 0 <= i < self.hook_urls@.len() ==> (#[trigger] self.hook_urls@[i]).wf()
    }

    /// Checks that every configured target has a destination.
    pub fn is_wf(&self) -> (r: bool)
        ensures
            r == self.wf(),
    {
        let n = self.hook_urls.len();
        let mut i: usize = 0;
        while i < n
            invariant
                n == self.hook_urls@.len(),
                0 <= i <= n,
                forall|k: int| 0 <= k < i ==> (#[trigger] self.hook_urls@[k]).wf(),
            decreases n - i,
        {
            if !self.hook_urls[i].is_wf() {
                return false;
            }
            i += 1;
        }
        true
    }
}

/// Mailbox poller configuration: where to poll, the credentials, and the
/// sender allow-list.
#[derive(Clone, Debug)]
pub struct Mail {
    pub imap_service: String,
    pub email: String,
    pub passwd: String,
    pub filter_users: Vec<String>,
}

/// Chat sink configuration: the ordered set of chat identifiers subscribed to
/// every broadcast message.
#[derive(Clone, Debug)]
pub struct TelegramCfg {
    pub allow_chat_id: Vec<String>,
}

/// The whole startup configuration.
#[derive(Clone, Debug)]
pub struct BotteConfig {
    pub listen: Option<String>,
    pub mail: Option<Mail>,
    pub webhook: Option<WebHook>,
    pub telegram: TelegramCfg,
}

} // verus!

//! Bot-side state: the abstract bot capability the relay expects from a chat
//! client, and the status record kept from startup for the console commands.

use vstd::prelude::*;

verus! {

/// The capability a chat client must offer the relay: run its interaction
/// loop, and send a text message to one chat identifier.
pub trait Bot {
    fn run(&self);

    fn send_message(&self, chat_id: i64, message: &str);
}

/// Status recorded when the chat bot starts: the start instant (seconds since
/// the Unix epoch) and the administrator chat identifiers, the first of which
/// may use the privileged console commands.
pub struct TGStatus {
    pub start_at: i64,
    pub admin_chat_id: Vec<String>,
}

impl TGStatus {
    /// Creates the startup status with the built-in administrator identifier.
    pub fn new(start_at: i64) -> (r: TGStatus)
        ensures
            r.start_at == start_at,
            r.admin_chat_id@.len() == 1,
            r.admin_chat_id@[0]@ == "768449054"@,
    {
        let mut admins: Vec<String> = Vec::new();
        admins.push("768449054".to_owned());
        TGStatus { start_at, admin_chat_id: admins }
    }

    /// Whether a chat identifier is the administrator: it must equal the
    /// first configured administrator identifier.
    pub open spec fn is_admin_spec(&self, chat_id: Seq<char>) -> bool {
        self.admin_chat_id@.len() > 0 && chat_id == self.admin_chat_id@[0]@
    }

    /// Checks whether a chat identifier is the administrator.
    pub fn is_admin(&self, chat_id: &str) -> (r: bool)
        ensures
            r == self.is_admin_spec(chat_id@),
    {
        if self.admin_chat_id.len() == 0 {
            return false;
        }
        crate::text::str_eq(chat_id, self.admin_chat_id[0].as_str())
    }
}

} // verus!

//! The mailbox poller's logic: sender normalization and filtering, body
//! extraction, date parsing with a clock fallback, the deduplication cache,
//! and the per-message decision of what to publish into the hub. The
//! embedding binary owns the IMAP session and hands every fetched raw
//! message, together with the current clock reading, to `handle_raw_message`.

use mailparse::MailHeaderMap;
use vstd::prelude::*;
use vstd::string::{StrSliceExecFns, StringExecFns};

use crate::text::{
    contains_sub, find_char, parse_u16_spec, parse_u16_str, rfind_char, str_contains, str_eq,
    trim_spec, trim_str,
};

verus! {

/// One email retained in the deduplication cache for observability.
#[derive(Clone, Debug)]
pub struct Mail {
    pub subject: String,
    pub from: String,
    pub to: String,
    pub date: String,
    pub content: String,
}

/// The composite deduplication key: the email's Unix timestamp and its
/// normalized sender address. Once recorded, the email is never re-broadcast.
#[derive(Clone, Debug)]
pub struct SeenEmailKey {
    pub ts: i64,
    pub sender: String,
}

impl SeenEmailKey {
    /// The mathematical key: timestamp and sender characters.
    pub open spec fn key_view(&self) -> (int, Seq<char>) {
        (self.ts as int, self.sender@)
    }
}

/// The poller's deduplication cache: every `(timestamp, sender)` key already
/// broadcast, with the email recorded for diagnostics. Entries are never
/// evicted; the cache grows for the process lifetime.
pub struct DedupCache {
    entries: Vec<(SeenEmailKey, Mail)>,
}

impl DedupCache {
    /// The set of keys recorded so far.
    pub closed spec fn keys(&self) -> Set<(int, Seq<char>)> {
        Set::new(
            |p: (int, Seq<char>)|
                exists|i: int|
                    0 <= i < self.entries@.len() && (#[trigger] self.entries@[i]).0.key_view()
                        == p,
        )
    }

    /// Number of recorded emails.
    pub closed spec fn count(&self) -> nat {
        self.entries@.len()
    }

    /// The recorded entries, oldest first: each key with the email kept for
    /// observability.
    pub closed spec fn records(&self) -> Seq<(SeenEmailKey, Mail)> {
        self.entries@
    }

    /// Each key is recorded at most once.
    pub closed spec fn wf(&self) -> bool {
        forall|i: int, j: int|
            0 <= i < j < self.entries@.len() ==> (#[trigger] self.entries@[i]).0.key_view() != (
            #[trigger] self.entries@[j]).0.key_view()
    }

    /// An empty cache.
    pub fn new() -> (c: DedupCache)
        ensures
            c.wf(),
            c.keys() == Set::<(int, Seq<char>)>::empty(),
            c.count() == 0,
            c.records() == Seq::<(SeenEmailKey, Mail)>::empty(),
    {
        let c = DedupCache { entries: Vec::new() };
        proof {
            assert(c.keys() =~= Set::<(int, Seq<char>)>::empty());
        }
        c
    }

    /// Whether a key is already recorded.
    pub fn contains_key(&self, ts: i64, sender: &str) -> (r: bool)
        ensures
            r == self.keys().contains((ts as int, sender@)),
    {
        let n = self.entries.len();
        let mut i: usize = 0;
        while i < n
            invariant
                n == self.entries@.len(),
                0 <= i <= n,
                forall|k: int|
                    0 <= k < i ==> (#[trigger] self.entries@[k]).0.key_view() != (
                    ts as int,
                    sender@,
                ),
            decreases n - i,
        {
            let e = &self.entries[i];
            if e.0.ts == ts && str_eq(sender, e.0.sender.as_str()) {
                return true;
            }
            i += 1;
        }
        false
    }

    /// The check-then-insert step, atomic under the poller's lock: records
    /// the key and the email only when the key is new, and reports whether it
    /// was.
    pub fn check_and_insert(&mut self, key: SeenEmailKey, record: Mail) -> (fresh: bool)
        requires
            old(self).wf(),
        ensures
            final(self).wf(),
            fresh == !old(self).keys().contains(key.key_view()),
            fresh ==> final(self).keys() == old(self).keys().insert(key.key_view()),
            fresh ==> final(self).count() == old(self).count() + 1,
            fresh ==> final(self).records() == old(self).records().push((key, record)),
            !fresh ==> final(self).keys() == old(self).keys(),
            !fresh ==> final(self).count() == old(self).count(),
            !fresh ==> final(self).records() == old(self).records(),
    {
        if self.contains_key(key.ts, key.sender.as_str()) {
            return false;
        }
        let ghost prev = self.entries@;
        let ghost kv = key.key_view();
        self.entries.push((key, record));
        proof {
            let post = self.entries@;
            assert forall|p: (int, Seq<char>)| self.keys().contains(p) implies old(
                self,
            ).keys().insert(kv).contains(p) by {
                let i = choose|i: int|
                    0 <= i < post.len() && (#[trigger] post[i]).0.key_view() == p;
                if i < prev.len() {
                    assert((#[trigger] prev[i]).0.key_view() == p);
                }
            }
            assert forall|p: (int, Seq<char>)| old(self).keys().insert(kv).contains(p)
                implies self.keys().contains(p) by {
                if p == kv {
                    assert((#[trigger] post[prev.len() as int]).0.key_view() == p);
                } else {
                    let i = choose|i: int|
                        0 <= i < prev.len() && (#[trigger] prev[i]).0.key_view() == p;
                    assert((#[trigger] post[i]).0.key_view() == p);
                }
            }
            assert(self.keys() =~= old(self).keys().insert(kv));
            assert forall|i: int, j: int| 0 <= i < j < post.len() implies (
            #[trigger] post[i]).0.key_view() != (#[trigger] post[j]).0.key_view() by {
                if j == prev.len() as int {
                    assert((#[trigger] prev[i]).0.key_view() == post[i].0.key_view());
                    assert(old(self).keys().contains(post[i].0.key_view()));
                }
            }
        }
        true
    }

    /// Number of recorded emails.
    pub fn record_count(&self) -> (n: usize)
        ensures
            n == self.count(),
    {
        self.entries.len()
    }
}

/// Index of the last occurrence of `c` in `s`, or -1.
pub open spec fn last_index_of(s: Seq<char>, c: char) -> int
    decreases s.len(),
{
    if s.len() == 0 {
        -1
    } else if s.last() == c {
        s.len() - 1
    } else {
        last_index_of(s.drop_last(), c)
    }
}

/// Index of the first occurrence of `c` in `s`, or -1.
pub open spec fn first_index_of(s: Seq<char>, c: char) -> int
    decreases s.len(),
{
    if s.len() == 0 {
        -1
    } else if s[0] == c {
        0
    } else if first_index_of(s.drop_first(), c) == -1 {
        -1
    } else {
        1 + first_index_of(s.drop_first(), c)
    }
}

proof fn lemma_last_index_of(s: Seq<char>, c: char)
    ensures
        last_index_of(s, c) == -1 || (0 <= last_index_of(s, c) < s.len()),
        last_index_of(s, c) == -1 ==> forall|k: int| 0 <= k < s.len() ==> s[k] != c,
        last_index_of(s, c) >= 0 ==> {
            &&& last_index_of(s, c) < s.len()
            &&& s[last_index_of(s, c)] == c
            &&& forall|k: int| last_index_of(s, c) < k < s.len() ==> s[k] != c
        },
    decreases s.len(),
{
    if s.len() > 0 && s.last() != c {
        lemma_last_index_of(s.drop_last(), c);
        let li = last_index_of(s.drop_last(), c);
        if li == -1 {
            assert forall|k: int| 0 <= k < s.len() implies s[k] != c by {
                if k < s.len() - 1 {
                    assert(s.drop_last()[k] == s[k]);
                    assert(s.drop_last()[k] != c);
                }
            }
        } else {
            assert(s.drop_last()[li] == s[li]);
            assert forall|k: int| li < k < s.len() implies s[k] != c by {
                if k < s.len() - 1 {
                    assert(s.drop_last()[k] == s[k]);
                    assert(s.drop_last()[k] != c);
                }
            }
        }
    }
}

proof fn lemma_first_index_of(s: Seq<char>, c: char)
    ensures
        first_index_of(s, c) == -1 || (0 <= first_index_of(s, c) < s.len()),
        first_index_of(s, c) == -1 ==> forall|k: int| 0 <= k < s.len() ==> s[k] != c,
        first_index_of(s, c) >= 0 ==> {
            &&& first_index_of(s, c) < s.len()
            &&& s[first_index_of(s, c)] == c
            &&& forall|k: int| 0 <= k < first_index_of(s, c) ==> s[k] != c
        },
    decreases s.len(),
{
    if s.len() > 0 && s[0] != c {
        lemma_first_index_of(s.drop_first(), c);
        let fi = first_index_of(s.drop_first(), c);
        if fi == -1 {
            assert forall|k: int| 0 <= k < s.len() implies s[k] != c by {
                if k > 0 {
                    assert(s.drop_first()[k - 1] == s[k]);
                    assert(s.drop_first()[k - 1] != c);
                }
            }
        } else {
            assert(s.drop_first()[fi] == s[fi + 1]);
            assert forall|k: int| 0 <= k < first_index_of(s, c) implies s[k] != c by {
                if k > 0 {
                    assert(s.drop_first()[k - 1] == s[k]);
                    assert(s.drop_first()[k - 1] != c);
                }
            }
        }
    }
}

/// The normalized sender address: the content between the last `<` and the
/// first following `>` of the `From` header (falling back to the raw value
/// where either is absent), with surrounding whitespace removed.
pub open spec fn normalize_sender_spec(from: Seq<char>) -> Seq<char> {
    let lt = last_index_of(from, '<');
    let tail = if lt == -1 {
        from
    } else {
        from.skip(lt + 1)
    };
    let gt = first_index_of(tail, '>');
    let core = if gt == -1 {
        tail
    } else {
        tail.subrange(0, gt)
    };
    trim_spec(core)
}

/// Normalizes a `From` header to the bare sender address.
pub fn normalize_sender(from: &str) -> (r: String)
    ensures
        r@ == normalize_sender_spec(from@),
{
    proof {
        lemma_last_index_of(from@, '<');
    }
    let n = from.unicode_len();
    let tail: String = match rfind_char(from, '<') {
        Some(i) => {
            let t = from.substring_char(i + 1, n).to_owned();
            proof {
                let li = last_index_of(from@, '<');
                if li == -1 {
                    assert(from@[i as int] != '<');
                } else if li < i as int {
                    assert(from@[i as int] != '<');
                } else if li > i as int {
                    assert(from@[li] != '<');
                }
                assert(last_index_of(from@, '<') == i as int);
                assert(t@ =~= from@.skip(i + 1));
            }
            t
        },
        None => {
            proof {
                assert(last_index_of(from@, '<') == -1) by {
                    if last_index_of(from@, '<') >= 0 {
                        assert(from@[last_index_of(from@, '<')] == '<');
                    }
                }
            }
            from.to_owned()
        },
    };
    proof {
        lemma_first_index_of(tail@, '>');
    }
    let tn = tail.as_str().unicode_len();
    let core: String = match find_char(tail.as_str(), '>') {
        Some(i) => {
            let t = tail.as_str().substring_char(0, i).to_owned();
            proof {
                let fi = first_index_of(tail@, '>');
                if fi == -1 {
                    assert(tail@[i as int] != '>');
                } else if fi < i as int {
                    assert(tail@[fi] != '>');
                } else if fi > i as int {
                    assert(tail@[i as int] != '>');
                }
                assert(first_index_of(tail@, '>') == i as int);
                assert(t@ =~= tail@.subrange(0, i as int));
            }
            t
        },
        None => {
            proof {
                assert(first_index_of(tail@, '>') == -1) by {
                    if first_index_of(tail@, '>') >= 0 {
                        assert(tail@[first_index_of(tail@, '>')] == '>');
                    }
                }
            }
            tail
        },
    };
    trim_str(core.as_str())
}

/// One MIME subpart, as far as the poller reads it: its content type header,
/// if any, and its decoded body.
pub struct EmailPart {
    pub content_type: Option<String>,
    pub body: String,
}

/// One parsed email, as far as the poller reads it: the four headers, the
/// decoded top-level body, and the first-level subparts.
pub struct ParsedEmail {
    pub subject: String,
    pub from: String,
    pub to: String,
    pub date: String,
    pub body: String,
    pub subparts: Vec<EmailPart>,
}

/// What mailparse's parser produces for given raw bytes, projected onto the
/// fields the poller reads. A function of the bytes alone.
pub uninterp spec fn parsed_email_of(raw: Seq<u8>) -> Option<ParsedEmail>;

/// Relies on mailparse::parse_mail together with its header accessor
/// `get_first_value` and body decoder `get_body`: parsing is a pure function
/// of the raw bytes, and the accessors project the headers and decoded
/// bodies this structure keeps.
#[verifier::external_body]
fn parse_email(raw: &[u8]) -> (r: Option<ParsedEmail>)
    ensures
        r == parsed_email_of(raw@),
{
    let m = match mailparse::parse_mail(raw) {
        Ok(m) => m,
        Err(_) => return None,
    };
    Some(ParsedEmail {
        subject: m.headers.get_first_value("Subject").unwrap_or_default(),
        from: m.headers.get_first_value("From").unwrap_or_default(),
        to: m.headers.get_first_value("To").unwrap_or_default(),
        date: m.headers.get_first_value("Date").unwrap_or_default(),
        body: m.get_body().unwrap_or_default(),
        subparts: m.subparts.iter().map(|p| EmailPart {
            content_type: p.headers.get_first_value("Content-Type"),
            body: p.get_body().unwrap_or_default(),
        }).collect(),
    })
}

/// Whether a subpart's content type matches what the extractor prefers.
pub open spec fn is_text_part(p: EmailPart) -> bool {
    match p.content_type {
        Some(ct) => contains_sub(ct@, "text/plain"@) || contains_sub(ct@, "text/html"@),
        None => false,
    }
}

/// The first subpart with a matching content type, if any.
pub open spec fn first_text_part(parts: Seq<EmailPart>) -> Option<EmailPart>
    decreases parts.len(),
{
    if parts.len() == 0 {
        None
    } else if is_text_part(parts[0]) {
        Some(parts[0])
    } else {
        first_text_part(parts.drop_first())
    }
}

proof fn lemma_first_text_part_at(parts: Seq<EmailPart>, i: int)
    requires
        0 <= i < parts.len(),
        is_text_part(parts[i]),
        forall|k: int| 0 <= k < i ==> !is_text_part(parts[k]),
    ensures
        first_text_part(parts) == Some(parts[i]),
    decreases parts.len(),
{
    if i > 0 {
        assert(forall|k: int|
            0 <= k < parts.drop_first().len() ==> parts.drop_first()[k] == parts[k + 1]);
        lemma_first_text_part_at(parts.drop_first(), i - 1);
    }
}

proof fn lemma_first_text_part_none(parts: Seq<EmailPart>)
    requires
        forall|k: int| 0 <= k < parts.len() ==> !is_text_part(parts[k]),
    ensures
        first_text_part(parts) is None,
    decreases parts.len(),
{
    if parts.len() > 0 {
        assert(forall|k: int|
            0 <= k < parts.drop_first().len() ==> parts.drop_first()[k] == parts[k + 1]);
        lemma_first_text_part_none(parts.drop_first());
    }
}

/// The body the poller broadcasts: the top-level body where the email has no
/// subparts; otherwise the body of the first subpart whose content type
/// mentions `text/plain` or `text/html`, or empty where none matches.
pub open spec fn extract_body_spec(em: ParsedEmail) -> Seq<char> {
    if em.subparts@.len() == 0 {
        em.body@
    } else {
        match first_text_part(em.subparts@) {
            Some(p) => p.body@,
            None => Seq::empty(),
        }
    }
}

/// Extracts the preferred plain-text or HTML body of a parsed email.
pub fn extract_body(em: &ParsedEmail) -> (r: String)
    ensures
        r@ == extract_body_spec(*em),
{
    let n = em.subparts.len();
    if n == 0 {
        return em.body.clone();
    }
    let mut i: usize = 0;
    while i < n
        invariant
            n == em.subparts@.len(),
            0 <= i <= n,
            forall|k: int| 0 <= k < i ==> !is_text_part(em.subparts@[k]),
        decreases n - i,
    {
        let p = &em.subparts[i];
        let matches_text = match &p.content_type {
            Some(ct) => {
                str_contains(ct.as_str(), "text/plain") || str_contains(ct.as_str(), "text/html")
            },
            None => false,
        };
        if matches_text {
            proof {
                lemma_first_text_part_at(em.subparts@, i as int);
            }
            return p.body.clone();
        }
        i += 1;
    }
    proof {
        lemma_first_text_part_none(em.subparts@);
    }
    String::new()
}

/// Errors of the poller's own logic.
#[derive(Clone, Copy, PartialEq, Eq, Structural, Debug)]
pub enum MailError {
    /// The `imap_service` port field is not a sixteen-bit decimal number.
    InvalidPort,
}

impl MailError {
    /// A short description for logs.
    pub fn message(&self) -> (r: String)
        ensures
            r@ == "invalid IMAP service port"@,
    {
        "invalid IMAP service port".to_owned()
    }
}

/// How an `imap_service` field splits into host and port: a single colon
/// separates the host from a decimal port, which must parse; any other shape
/// is a bare host with the default IMAP port 993.
pub open spec fn split_host_port_spec(s: Seq<char>) -> Result<(Seq<char>, u16), MailError> {
    let i = first_index_of(s, ':');
    if i == -1 {
        Ok((s, 993u16))
    } else if first_index_of(s.skip(i + 1), ':') != -1 {
        Ok((s, 993u16))
    } else {
        match parse_u16_spec(s.skip(i + 1)) {
            Some(p) => Ok((s.subrange(0, i), p)),
            None => Err(MailError::InvalidPort),
        }
    }
}

/// Splits the configured `imap_service` into the host to connect to and the
/// port.
pub fn split_host_port(s: &str) -> (r: Result<(String, u16), MailError>)
    ensures
        match r {
            Ok((host, port)) => split_host_port_spec(s@) == Ok::<_, MailError>((host@, port)),
            Err(e) => split_host_port_spec(s@) == Err::<(Seq<char>, u16), _>(e),
        },
{
    proof {
        lemma_first_index_of(s@, ':');
    }
    let n = s.unicode_len();
    match find_char(s, ':') {
        None => {
            proof {
                assert(first_index_of(s@, ':') == -1) by {
                    if first_index_of(s@, ':') >= 0 {
                        assert(s@[first_index_of(s@, ':')] == ':');
                    }
                }
            }
            Ok((s.to_owned(), 993))
        },
        Some(i) => {
            proof {
                let fi = first_index_of(s@, ':');
                if fi == -1 {
                    assert(s@[i as int] != ':');
                } else if fi < i as int {
                    assert(s@[fi] != ':');
                } else if fi > i as int {
                    assert(s@[i as int] != ':');
                }
                assert(first_index_of(s@, ':') == i as int);
            }
            let rest = s.substring_char(i + 1, n);
            proof {
                assert(rest@ =~= s@.skip(i + 1));
                lemma_first_index_of(rest@, ':');
            }
            match find_char(rest, ':') {
                Some(j) => {
                    proof {
                        let fj = first_index_of(rest@, ':');
                        if fj == -1 {
                            assert(rest@[j as int] != ':');
                        }
                        assert(first_index_of(rest@, ':') != -1);
                    }
                    Ok((s.to_owned(), 993))
                },
                None => {
                    proof {
                        assert(first_index_of(rest@, ':') == -1) by {
                            if first_index_of(rest@, ':') >= 0 {
                                assert(rest@[first_index_of(rest@, ':')] == ':');
                            }
                        }
                    }
                    match parse_u16_str(rest) {
                        Some(p) => {
                            let host = s.substring_char(0, i).to_owned();
                            proof {
                                assert(host@ =~= s@.subrange(0, i as int));
                            }
                            Ok((host, p))
                        },
                        None => Err(MailError::InvalidPort),
                    }
                },
            }
        },
    }
}

/// What chrono's RFC 2822 parser yields for a `Date` header: the Unix
/// timestamp, a function of the characters alone, or nothing where the
/// header does not parse.
pub uninterp spec fn rfc2822_timestamp_of(s: Seq<char>) -> Option<i64>;

/// Relies on chrono's DateTime::parse_from_rfc2822 and DateTime::timestamp:
/// the parse reads the offset from the string itself, so the timestamp is a
/// function of the characters alone.
#[verifier::external_body]
fn parse_rfc2822_timestamp(s: &str) -> (r: Option<i64>)
    ensures
        r == rfc2822_timestamp_of(s@),
{
    match chrono::DateTime::parse_from_rfc2822(s) {
        Ok(d) => Some(d.timestamp()),
        Err(_) => None,
    }
}

/// The timestamp half of the deduplication key: the parsed `Date` header,
/// or the supplied current time where the header does not parse (reported in
/// the second component, so the caller can log the degradation).
pub fn email_timestamp(date_header: &str, now_ts: i64) -> (r: (i64, bool))
    ensures
        match rfc2822_timestamp_of(date_header@) {
            Some(t) => r == (t, false),
            None => r == (now_ts, true),
        },
{
    match parse_rfc2822_timestamp(date_header) {
        Some(t) => (t, false),
        None => (now_ts, true),
    }
}

/// The deduplication key an email gets, given the clock reading used as the
/// fallback for an unparseable date.
pub open spec fn email_key_spec(em: ParsedEmail, now_ts: i64) -> (int, Seq<char>) {
    let ts = match rfc2822_timestamp_of(em.date@) {
        Some(t) => t as int,
        None => now_ts as int,
    };
    (ts, normalize_sender_spec(em.from@))
}

/// What the poller decided for one email.
pub struct EmailDecision {
    /// The body to hand to the hub, present exactly when the sender is
    /// allowed and the key is new.
    pub publish: Option<String>,
    /// Whether the message is queued for the batched mark-as-seen request:
    /// exactly when the sender is allowed, new key or not.
    pub mark_seen: bool,
    /// Whether the key was new to the cache.
    pub fresh: bool,
}

/// What the audit record kept for one accepted email holds: the key, the
/// parsed headers, the normalized sender, and the extracted body.
pub open spec fn recorded_email_ok(
    entry: (SeenEmailKey, Mail),
    key: (int, Seq<char>),
    em: ParsedEmail,
) -> bool {
    &&& entry.0.key_view() == key
    &&& entry.1.subject@ == em.subject@
    &&& entry.1.from@ == key.1
    &&& entry.1.to@ == em.to@
    &&& entry.1.date@ == em.date@
    &&& entry.1.content@ == extract_body_spec(em)
}

/// The contract one processed email satisfies, relating the cache before and
/// after to the decision taken: a disallowed sender changes nothing and is
/// left unread; an allowed sender is always marked seen; the body is
/// published exactly when the sender is allowed and the key was not yet
/// recorded, and in that case the key and the audit record are recorded.
pub open spec fn decision_ok(
    before: DedupCache,
    after: DedupCache,
    allow: Seq<Seq<char>>,
    em: ParsedEmail,
    now_ts: i64,
    d: EmailDecision,
) -> bool {
    let sender = normalize_sender_spec(em.from@);
    let allowed = allow.contains(sender);
    let key = email_key_spec(em, now_ts);
    &&& d.mark_seen == allowed
    &&& (!allowed ==> after.keys() == before.keys() && after.records() == before.records()
        && d.publish is None && !d.fresh)
    &&& (allowed ==> d.fresh == !before.keys().contains(key))
    &&& (allowed && d.fresh ==> {
        &&& after.keys() == before.keys().insert(key)
        &&& d.publish.deep_view() == Some(extract_body_spec(em))
        &&& after.records().len() == before.records().len() + 1
        &&& after.records().drop_last() == before.records()
        &&& recorded_email_ok(after.records().last(), key, em)
    })
    &&& (allowed && !d.fresh ==> after.keys() == before.keys() && after.records()
        == before.records() && d.publish is None)
}

/// Membership of the normalized sender in the allow-list.
fn allow_contains(allow: &Vec<String>, sender: &str) -> (r: bool)
    ensures
        r == allow.deep_view().contains(sender@),
{
    let n = allow.len();
    let mut i: usize = 0;
    while i < n
        invariant
            n == allow@.len(),
            0 <= i <= n,
            forall|k: int| 0 <= k < i ==> allow.deep_view()[k] != sender@,
        decreases n - i,
    {
        if str_eq(sender, allow[i].as_str()) {
            proof {
                assert(allow.deep_view()[i as int] == sender@);
            }
            return true;
        }
        i += 1;
    }
    proof {
        if allow.deep_view().contains(sender@) {
            let k = choose|k: int|
                0 <= k < allow.deep_view().len() && allow.deep_view()[k] == sender@;
            assert(allow.deep_view()[k] != sender@);
        }
    }
    false
}

/// Decides what one parsed email does to the relay: filters by the sender
/// allow-list, deduplicates against the cache under the composite key, and
/// yields the body to publish when the email is new. A sender outside the
/// allow-list never reaches the hub and is left unread; an allowed email is
/// marked seen whether or not its key was new.
pub fn process_email(
    cache: &mut DedupCache,
    allow: &Vec<String>,
    em: &ParsedEmail,
    now_ts: i64,
) -> (r: EmailDecision)
    requires
        old(cache).wf(),
    ensures
        final(cache).wf(),
        decision_ok(*old(cache), *final(cache), allow.deep_view(), *em, now_ts, r),
        r.publish is Some ==> allow.deep_view().contains(normalize_sender_spec(em.from@)),
        r.publish is Some ==> !old(cache).keys().contains(email_key_spec(*em, now_ts))
            && final(cache).keys().contains(email_key_spec(*em, now_ts)),
{
    let sender = normalize_sender(em.from.as_str());
    if !allow_contains(allow, sender.as_str()) {
        return EmailDecision { publish: None, mark_seen: false, fresh: false };
    }
    let (ts, _used_fallback) = email_timestamp(em.date.as_str(), now_ts);
    let body = extract_body(em);
    let key = SeenEmailKey { ts, sender: sender.clone() };
    let record = Mail {
        subject: em.subject.clone(),
        from: sender,
        to: em.to.clone(),
        date: em.date.clone(),
        content: body.clone(),
    };
    let fresh = cache.check_and_insert(key, record);
    if fresh {
        proof {
            assert(cache.records().drop_last() =~= old(cache).records());
        }
        EmailDecision { publish: Some(body), mark_seen: true, fresh: true }
    } else {
        EmailDecision { publish: None, mark_seen: true, fresh: false }
    }
}

/// Parses one raw fetched message and decides what it does to the relay.
/// Bytes that do not parse as an email yield no decision and leave the cache
/// unchanged.
pub fn handle_raw_message(
    cache: &mut DedupCache,
    allow: &Vec<String>,
    raw: &[u8],
    now_ts: i64,
) -> (r: Option<EmailDecision>)
    requires
        old(cache).wf(),
    ensures
        final(cache).wf(),
        match parsed_email_of(raw@) {
            None => {
                &&& r is None
                &&& final(cache).keys() == old(cache).keys()
                &&& final(cache).records() == old(cache).records()
            },
            Some(em) => match r {
                Some(d) => decision_ok(
                    *old(cache),
                    *final(cache),
                    allow.deep_view(),
                    em,
                    now_ts,
                    d,
                ),
                None => false,
            },
        },
{
    match parse_email(raw) {
        None => None,
        Some(em) => Some(process_email(cache, allow, &em, now_ts)),
    }
}

/// Deduplication law: suppose one poll cycle processed an email and published
/// it, and a later cycle — starting from any cache state that includes
/// everything the first left behind — processes an email with the same
/// deduplication key. The later cycle does not publish: across both cycles
/// the hub sees the email at most once.
pub proof fn lemma_dedup_at_most_once(
    c0: DedupCache,
    c1: DedupCache,
    d1: EmailDecision,
    c2: DedupCache,
    c3: DedupCache,
    d2: EmailDecision,
    allow: Seq<Seq<char>>,
    em1: ParsedEmail,
    em2: ParsedEmail,
    now1: i64,
    now2: i64,
)
    requires
        decision_ok(c0, c1, allow, em1, now1, d1),
        decision_ok(c2, c3, allow, em2, now2, d2),
        c1.keys().subset_of(c2.keys()),
        email_key_spec(em1, now1) == email_key_spec(em2, now2),
        d1.publish is Some,
    ensures
        d2.publish is None,
{
    let key = email_key_spec(em1, now1);
    assert(c1.keys().contains(key));
    assert(c2.keys().contains(key));
}

/// Sender-filter law: an email whose normalized sender is not in the
/// allow-list never reaches the hub, whatever its content — nothing is
/// published, nothing is recorded, and the message is left unread.
pub proof fn lemma_sender_filtered(
    before: DedupCache,
    after: DedupCache,
    allow: Seq<Seq<char>>,
    em: ParsedEmail,
    now_ts: i64,
    d: EmailDecision,
)
    requires
        decision_ok(before, after, allow, em, now_ts, d),
        !allow.contains(normalize_sender_spec(em.from@)),
    ensures
        d.publish is None,
        after.keys() == before.keys(),
        after.records() == before.records(),
        !d.mark_seen,
{
}

/// The poller's cache only grows: processing an email never forgets a
/// recorded key.
pub proof fn lemma_cache_monotone(
    before: DedupCache,
    after: DedupCache,
    allow: Seq<Seq<char>>,
    em: ParsedEmail,
    now_ts: i64,
    d: EmailDecision,
)
    requires
        decision_ok(before, after, allow, em, now_ts, d),
    ensures
        before.keys().subset_of(after.keys()),
{
}

/// The phases of one polling cycle.
#[derive(Clone, Copy, PartialEq, Eq, Structural, Debug)]
pub enum PollPhase {
    Connect,
    Authenticate,
    SelectInbox,
    SearchUnseen,
    FetchOne,
    MarkSeenBatch,
    Sleep,
}

/// The crash-only recovery policy of the polling state machine: any step
/// failure abandons the cycle and restarts from `Connect`; success advances
/// along `Connect → Authenticate → SelectInbox → SearchUnseen → FetchOne* →
/// MarkSeenBatch → Sleep → SearchUnseen`. `more` reports whether unseen
/// messages remain to fetch.
pub fn poll_transition(phase: PollPhase, ok: bool, more: bool) -> (next: PollPhase)
    ensures
        !ok ==> next == PollPhase::Connect,
        ok ==> next == (match phase {
            PollPhase::Connect => PollPhase::Authenticate,
            PollPhase::Authenticate => PollPhase::SelectInbox,
            PollPhase::SelectInbox => PollPhase::SearchUnseen,
            PollPhase::SearchUnseen => if more {
                PollPhase::FetchOne
            } else {
                PollPhase::MarkSeenBatch
            },
            PollPhase::FetchOne => if more {
                PollPhase::FetchOne
            } else {
                PollPhase::MarkSeenBatch
            },
            PollPhase::MarkSeenBatch => PollPhase::Sleep,
            PollPhase::Sleep => PollPhase::SearchUnseen,
        }),
{
    if !ok {
        return PollPhase::Connect;
    }
    match phase {
        PollPhase::Connect => PollPhase::Authenticate,
        PollPhase::Authenticate => PollPhase::SelectInbox,
        PollPhase::SelectInbox => PollPhase::SearchUnseen,
        PollPhase::SearchUnseen => if more {
            PollPhase::FetchOne
        } else {
            PollPhase::MarkSeenBatch
        },
        PollPhase::FetchOne => if more {
            PollPhase::FetchOne
        } else {
            PollPhase::MarkSeenBatch
        },
        PollPhase::MarkSeenBatch => PollPhase::Sleep,
        PollPhase::Sleep => PollPhase::SearchUnseen,
    }
}

} // verus!

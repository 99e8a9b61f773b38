//! Notification dispatch: recipient parsing into sinks, the ordered
//! mailbox, per-sink retry with capped exponential backoff, and the
//! notification texts.
use vstd::prelude::*;
use std::io::Write;

verus! {

use std::collections::VecDeque;
use vstd::string::{StrSliceExecFns, StringExecFns};
use crate::text::{
    spec_trim,
    trim_str,
    first_idx_of,
    find_char,
    str_eq,
    spec_parse_i64,
    parse_i64,
    dec_digits,
    u64_to_string,
};

/// One queued notification: an opaque message payload.
#[derive(Clone, Debug)]
pub struct NotifyEvent {
    pub msg: String,
}

/// The console sink: prints each message, labelled by a correlation tag.
#[derive(Clone, Debug)]
pub struct ConsoleSink {
    pub tag: String,
}

impl ConsoleSink {
    pub fn new(tag: String) -> (s: Self)
        ensures
            s.tag == tag,
    {
        ConsoleSink { tag }
    }

    /// Relies on writeln to standard output, the console sink's delivery;
    /// a failed write reports as an undelivered attempt.
    #[verifier::external_body]
    pub fn send(&self, text: &str) -> (r: bool) {
        let mut out = std::io::stdout();
        match writeln!(out, "\n{}\n", text) {
            Ok(_) => true,
            Err(_) => false,
        }
    }
}

/// A resolved delivery target, built once at job construction.
#[derive(Clone, Debug)]
pub enum SinkSpec {
    /// Print to the console, labelled with a free-form tag.
    Console { tag: String },
    /// Send to a chat, with the bot credential and the numeric chat.
    Telegram { token: String, chat_id: i64 },
}

/// How one recipient entry resolves.
#[derive(Clone, Copy, Debug, PartialEq, Eq, Structural)]
pub enum SinkKind {
    /// Unknown scheme, malformed entry, bad chat identifier, or a chat
    /// entry without a credential: the entry is skipped.
    Rejected,
    Console,
    Telegram,
}

/// The scheme part of a recipient entry: what stands before the first colon
/// of the trimmed entry.
pub open spec fn spec_scheme(entry: Seq<char>) -> Seq<char> {
    let t = spec_trim(entry);
    t.take(first_idx_of(t, ':'))
}

/// The payload part of a recipient entry: what stands after the first colon
/// of the trimmed entry.
pub open spec fn spec_payload(entry: Seq<char>) -> Seq<char> {
    let t = spec_trim(entry);
    t.skip(first_idx_of(t, ':') + 1)
}

/// How a recipient entry of the form `<scheme>:<payload>` resolves: `tg`
/// with a parsable chat identifier and a credential present makes a chat
/// sink, `console` makes a console sink, everything else is rejected.
pub open spec fn spec_sink_kind(entry: Seq<char>, has_token: bool) -> SinkKind {
    let t = spec_trim(entry);
    let ci = first_idx_of(t, ':');
    if ci < 0 {
        SinkKind::Rejected
    } else if spec_scheme(entry) == ("tg")@ {
        if spec_parse_i64(spec_payload(entry)) is Some && has_token {
            SinkKind::Telegram
        } else {
            SinkKind::Rejected
        }
    } else if spec_scheme(entry) == ("console")@ {
        SinkKind::Console
    } else {
        SinkKind::Rejected
    }
}

/// Resolve one recipient entry against the job's optional bot credential.
pub fn parse_sink(entry: &str, telegram_token: &Option<String>) -> (r: Option<SinkSpec>)
    ensures
        ({
            let k = spec_sink_kind(entry@, telegram_token is Some);
            match r {
                None => k is Rejected,
                Some(s) => match s {
                    SinkSpec::Console { tag } => k is Console && tag@ == spec_payload(entry@),
                    SinkSpec::Telegram { token, chat_id } => k is Telegram && (*telegram_token
                        matches Some(t) && token == t) && Some(chat_id) == spec_parse_i64(
                        spec_payload(entry@),
                    ),
                },
            }
        }),
{
    let t = trim_str(entry);
    match find_char(t, ':') {
        None => None,
        Some(ci) => {
            let tlen = t.unicode_len();
            let scheme = t.substring_char(0, ci);
            let payload = t.substring_char(ci + 1, tlen);
            proof {
                assert(scheme@ =~= spec_scheme(entry@));
                assert(payload@ =~= spec_payload(entry@));
            }
            if str_eq(scheme, "tg") {
                match parse_i64(payload) {
                    Some(id) => match telegram_token {
                        Some(tk) => Some(SinkSpec::Telegram { token: tk.clone(), chat_id: id }),
                        None => None,
                    },
                    None => None,
                }
            } else if str_eq(scheme, "console") {
                Some(SinkSpec::Console { tag: payload.to_owned() })
            } else {
                None
            }
        },
    }
}

/// The model of a resolved sink list: for each accepted entry, its kind,
/// its text (the console tag, or the credential of a chat sink), and the
/// chat identifier.
pub open spec fn spec_sinks(entries: Seq<Seq<char>>, has_token: bool, token: Seq<char>) -> Seq<
    (SinkKind, Seq<char>, i64),
>
    decreases entries.len(),
{
    if entries.len() == 0 {
        Seq::empty()
    } else {
        let rest = spec_sinks(entries.drop_first(), has_token, token);
        let e = entries[0];
        match spec_sink_kind(e, has_token) {
            SinkKind::Rejected => rest,
            SinkKind::Console => seq![(SinkKind::Console, spec_payload(e), 0i64)] + rest,
            SinkKind::Telegram => seq![
                (
                    SinkKind::Telegram,
                    token,
                    match spec_parse_i64(spec_payload(e)) {
                        Some(id) => id,
                        None => 0i64,
                    },
                ),
            ] + rest,
        }
    }
}

/// Whether a built sink agrees with one model entry.
pub open spec fn sink_matches(s: SinkSpec, m: (SinkKind, Seq<char>, i64)) -> bool {
    match s {
        SinkSpec::Console { tag } => m.0 is Console && tag@ == m.1,
        SinkSpec::Telegram { token, chat_id } => m.0 is Telegram && token@ == m.1 && chat_id
            == m.2,
    }
}

/// The token's text, or empty when there is none.
pub open spec fn spec_token_text(token: Option<String>) -> Seq<char> {
    match token {
        Some(t) => t@,
        None => Seq::empty(),
    }
}

/// Resolve the recipient list once, in order: rejected entries are skipped
/// individually and the job runs with the sinks that remain.
pub fn parse_sinks(to_raw: &Vec<String>, telegram_token: &Option<String>) -> (sinks: Vec<SinkSpec>)
    ensures
        ({
            let model = spec_sinks(
                to_raw.deep_view(),
                *telegram_token is Some,
                spec_token_text(*telegram_token),
            );
            &&& sinks@.len() == model.len()
            &&& forall|k: int| 0 <= k < model.len() ==> sink_matches(sinks@[k], model[k])
        }),
{
    let ghost entries = to_raw.deep_view();
    let ghost model = spec_sinks(
        entries,
        *telegram_token is Some,
        spec_token_text(*telegram_token),
    );
    let mut sinks: Vec<SinkSpec> = Vec::new();
    let mut i: usize = 0;
    proof {
        assert(entries.skip(0) =~= entries);
    }
    while i < to_raw.len()
        invariant
            i <= to_raw@.len(),
            entries == to_raw.deep_view(),
            entries.len() == to_raw@.len(),
            model == spec_sinks(
                entries,
                *telegram_token is Some,
                spec_token_text(*telegram_token),
            ),
            ({
                let rest = spec_sinks(
                    entries.skip(i as int),
                    *telegram_token is Some,
                    spec_token_text(*telegram_token),
                );
                &&& sinks@.len() + rest.len() == model.len()
                &&& forall|k: int| 0 <= k < rest.len() ==> model[sinks@.len() + k] == rest[k]
            }),
            forall|k: int| 0 <= k < sinks@.len() ==> sink_matches(sinks@[k], model[k]),
        decreases to_raw@.len() - i,
    {
        let ghost rest = spec_sinks(
            entries.skip(i as int),
            *telegram_token is Some,
            spec_token_text(*telegram_token),
        );
        let ghost rest_next = spec_sinks(
            entries.skip(i + 1),
            *telegram_token is Some,
            spec_token_text(*telegram_token),
        );
        proof {
            assert(entries.skip(i as int).drop_first() =~= entries.skip(i + 1));
            assert(entries.skip(i as int)[0] == entries[i as int]);
            assert(entries[i as int] == to_raw@[i as int]@);
            let e = entries[i as int];
            let k = spec_sink_kind(e, *telegram_token is Some);
            if !(k is Rejected) {
                assert(rest.drop_first() == rest_next);
                assert(forall|t: int| 0 <= t < rest_next.len() ==> rest[1 + t] == rest_next[t]);
            } else {
                assert(rest == rest_next);
            }
        }
        let entry = to_raw.get(i).unwrap();
        match parse_sink(entry.as_str(), telegram_token) {
            Some(s) => {
                sinks.push(s);
                proof {
                    assert(sink_matches(sinks@[sinks@.len() - 1], rest[0]));
                    assert(model[sinks@.len() - 1] == rest[0]);
                }
            },
            None => {},
        }
        i += 1;
    }
    proof {
        assert(spec_sinks(
            entries.skip(to_raw@.len() as int),
            *telegram_token is Some,
            spec_token_text(*telegram_token),
        ).len() == 0);
    }
    sinks
}

/// What the consumer does after one delivery attempt.
#[derive(Clone, Copy, Debug, PartialEq, Eq, Structural)]
pub enum DeliveryAction {
    /// The sink accepted the message; move on.
    Delivered,
    /// Wait this many milliseconds, then try the same sink again.
    RetryAfter(u64),
    /// Three attempts failed: drop the message for this sink only.
    Dropped,
}

/// The retry step: the attempt is counted; success delivers; the third
/// failure drops the message; an earlier failure waits the current backoff
/// and doubles it, capped at 5000 ms.
pub open spec fn spec_attempt(attempts: int, delay: int, ok: bool) -> (int, int, bool, DeliveryAction) {
    let na = attempts + 1;
    if ok {
        (na, delay, true, DeliveryAction::Delivered)
    } else if na >= 3 {
        (na, delay, true, DeliveryAction::Dropped)
    } else {
        (
            na,
            if 2 * delay >= 5000 {
                5000int
            } else {
                2 * delay
            },
            false,
            DeliveryAction::RetryAfter(delay as u64),
        )
    }
}

/// Per-sink, per-message delivery state: attempts made, the next backoff
/// wait, and whether the delivery is closed (delivered or dropped).
pub struct SinkDelivery {
    pub attempts: u8,
    pub delay_ms: u64,
    pub done: bool,
}

impl SinkDelivery {
    pub open spec fn wf(self) -> bool {
        self.attempts <= 3 && 400 <= self.delay_ms <= 5000
    }

    /// A fresh delivery: no attempts yet, backoff starting at 400 ms.
    pub fn new() -> (s: Self)
        ensures
            s.attempts == 0,
            s.delay_ms == 400,
            !s.done,
            s.wf(),
    {
        SinkDelivery { attempts: 0, delay_ms: 400, done: false }
    }

    /// Record the outcome of one attempt and say what to do next.
    pub fn record_attempt(&mut self, ok: bool) -> (action: DeliveryAction)
        requires
            !old(self).done,
            old(self).attempts < 3,
            old(self).wf(),
        ensures
            final(self).wf(),
            (final(self).attempts as int, final(self).delay_ms as int, final(self).done, action)
                == spec_attempt(old(self).attempts as int, old(self).delay_ms as int, ok),
    {
        self.attempts = self.attempts + 1;
        if ok {
            self.done = true;
            DeliveryAction::Delivered
        } else if self.attempts >= 3 {
            self.done = true;
            DeliveryAction::Dropped
        } else {
            let d = self.delay_ms;
            let nd: u64 = if 2 * d >= 5000 {
                5000
            } else {
                2 * d
            };
            self.delay_ms = nd;
            DeliveryAction::RetryAfter(d)
        }
    }
}

/// Retry discipline per sink and message, from a fresh delivery with the
/// 400 ms starting backoff: a sink failing attempts 1 and 2 and succeeding
/// on attempt 3 waits 400 ms and then 800 ms, delivers exactly once, and
/// the delivery closes; a sink failing all 3 attempts yields exactly one
/// drop action, and the closed delivery admits no further attempt.
pub proof fn lemma_delivery_retry()
    ensures
        spec_attempt(0, 400, false) == (1int, 800int, false, DeliveryAction::RetryAfter(400u64)),
        spec_attempt(1, 800, false) == (2int, 1600int, false, DeliveryAction::RetryAfter(800u64)),
        spec_attempt(2, 1600, true) == (3int, 1600int, true, DeliveryAction::Delivered),
        spec_attempt(2, 1600, false) == (3int, 1600int, true, DeliveryAction::Dropped),
{
}

/// The dispatcher's strictly-ordered mailbox: producers append, the single
/// consumer drains in arrival order, one message at a time.
pub struct Mailbox {
    pub queue: VecDeque<NotifyEvent>,
}

impl Mailbox {
    /// An empty mailbox.
    pub fn new() -> (m: Self)
        ensures
            m.queue@ =~= Seq::<NotifyEvent>::empty(),
    {
        Mailbox { queue: VecDeque::new() }
    }

    /// Fire-and-forget enqueue at the tail; never blocks the producer.
    pub fn enqueue(&mut self, ev: NotifyEvent)
        ensures
            final(self).queue@ == old(self).queue@.push(ev),
    {
        self.queue.push_back(ev);
    }

    /// The consumer takes the oldest message, preserving arrival order.
    pub fn dequeue(&mut self) -> (r: Option<NotifyEvent>)
        ensures
            match r {
                None => old(self).queue@.len() == 0 && final(self).queue@ == old(self).queue@,
                Some(ev) => old(self).queue@.len() > 0 && ev == old(self).queue@[0]
                    && final(self).queue@ == old(self).queue@.drop_first(),
            },
    {
        let r = self.queue.pop_front();
        proof {
            if old(self).queue@.len() > 0 {
                assert(old(self).queue@.subrange(1, old(self).queue@.len() as int) =~= old(
                    self,
                ).queue@.drop_first());
            }
        }
        r
    }
}

/// The notification text for a matched line.
pub open spec fn spec_match_message(
    date: Seq<char>,
    path: Seq<char>,
    line: int,
    content: Seq<char>,
) -> Seq<char> {
    ("!dende-rs::log-watcher::matched!\n\nDate: ")@ + date + ("\nFilename and line: ")@ + path + (
    ":")@ + dec_digits(line) + ("\nContent matched:\n\n")@ + content
}

/// Compose the notification text for a matched line.
pub fn format_match_message(date: &str, path: &str, line: u64, content: &str) -> (r: String)
    ensures
        r@ == spec_match_message(date@, path@, line as int, content@),
{
    let mut r = String::from_str("!dende-rs::log-watcher::matched!\n\nDate: ");
    r.append(date);
    r.append("\nFilename and line: ");
    r.append(path);
    r.append(":");
    let num = u64_to_string(line);
    r.append(num.as_str());
    r.append("\nContent matched:\n\n");
    r.append(content);
    proof {
        assert(r@ =~= spec_match_message(date@, path@, line as int, content@));
    }
    r
}

} // verus!

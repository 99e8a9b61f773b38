//! Hash-reputation polling: result classification, detection scoring, and
//! the retry-forever queue of pending hashes.
use vstd::prelude::*;

verus! {

use std::collections::VecDeque;
use vstd::utf8::encode_utf8;
use vstd::string::{StringExecFns, StringSliceAdditionalSpecFns};
use crate::text::{
    is_substring,
    dec_digits,
    dec_int,
    u64_to_string,
    i64_to_string,
    contains_str,
};

/// The fixed analysis categories whose counters make up the detection total.
#[derive(Clone, Copy, Debug, PartialEq, Eq, Structural)]
pub struct AnalysisStats {
    pub malicious: u64,
    pub suspicious: u64,
    pub undetected: u64,
    pub harmless: u64,
    pub timeout: u64,
    pub failure: u64,
    pub confirmed_timeout: u64,
}

/// The sum of all category counters.
pub open spec fn spec_stats_total(s: AnalysisStats) -> int {
    s.malicious + s.suspicious + s.undetected + s.harmless + s.timeout + s.failure
        + s.confirmed_timeout
}

/// The detection ratio string `<malicious>/<total>`.
pub open spec fn spec_ratio(s: AnalysisStats) -> Seq<char> {
    dec_digits(s.malicious as int) + seq!['/'] + dec_digits(spec_stats_total(s))
}

/// Detection score of a report: the malicious count, the total over all
/// categories, and the ratio string `<malicious>/<total>`.
pub fn vt_score(stats: &AnalysisStats) -> (r: (u64, u64, String))
    requires
        spec_stats_total(*stats) <= u64::MAX,
    ensures
        r.0 == stats.malicious,
        r.1 == spec_stats_total(*stats),
        r.2@ == spec_ratio(*stats),
{
    let total: u64 = stats.malicious + stats.suspicious + stats.undetected + stats.harmless
        + stats.timeout + stats.failure + stats.confirmed_timeout;
    let mut ratio = u64_to_string(stats.malicious);
    proof {
        reveal_strlit("/");
        assert(("/")@ =~= seq!['/']);
    }
    ratio.append("/");
    let t = u64_to_string(total);
    ratio.append(t.as_str());
    proof {
        assert(ratio@ =~= spec_ratio(*stats));
    }
    (stats.malicious, total, ratio)
}

/// What one external reputation lookup reports, reduced to plain values:
/// whether the service answered with an error marker or without data, and
/// the fields the notification draws on.
pub struct VtReport {
    /// The response carries a non-null `error` member.
    pub error_present: bool,
    /// The response carries a non-null `data` member.
    pub data_present: bool,
    /// `meaningful_name` of the file, when given.
    pub meaningful_name: Option<String>,
    /// The first entry of the file's `names`, when given.
    pub first_name: Option<String>,
    /// `signature_info.description`, when given.
    pub sig_description: Option<String>,
    /// `popular_threat_classification.suggested_threat_label`, when given.
    pub threat_label: Option<String>,
    /// `creation_date` as epoch seconds, when given.
    pub creation_date: Option<i64>,
    /// The community `reputation` score, when given.
    pub reputation: Option<i64>,
    /// The `last_analysis_stats` counters, absent ones read as 0.
    pub stats: AnalysisStats,
}

/// Outcome of one lookup: the hash is published with these fields, not yet
/// published, or the service failed transiently.
#[derive(Clone, Debug)]
pub enum CheckResult {
    NotFound,
    Found {
        filename: String,
        description: String,
        url: String,
        date: String,
        reputation: i64,
        ratio: String,
        mal: u64,
    },
    TransientError,
}

/// The RFC 3339 rendering in UTC of an epoch second, as chrono produces it;
/// `None` exactly when chrono refuses the timestamp as out of range.
pub uninterp spec fn rfc3339_of(ts: int) -> Option<Seq<char>>;

/// Relies on chrono's DateTime::<Utc>::from_timestamp and
/// DateTime::to_rfc3339: representability and the rendered text depend on
/// the timestamp alone.
#[verifier::external_body]
fn epoch_to_rfc3339(ts: i64) -> (r: Option<String>)
    ensures
        r is Some <==> rfc3339_of(ts as int) is Some,
        r matches Some(s) ==> rfc3339_of(ts as int) matches Some(v) && s@ == v,
{
    chrono::DateTime::<chrono::Utc>::from_timestamp(ts, 0).map(|dt| dt.to_rfc3339())
}

/// The filename reported for a file: `meaningful_name`, else the first of
/// `names`, else a placeholder.
pub open spec fn spec_report_name(r: VtReport) -> Seq<char> {
    match r.meaningful_name {
        Some(n) => n@,
        None => match r.first_name {
            Some(n) => n@,
            None => ("FIXME")@,
        },
    }
}

/// The description reported for a file: the signature description, else the
/// suggested threat label, else a placeholder.
pub open spec fn spec_report_description(r: VtReport) -> Seq<char> {
    match r.sig_description {
        Some(d) => d@,
        None => match r.threat_label {
            Some(d) => d@,
            None => ("FIXME")@,
        },
    }
}

/// The date shown for a file: its creation date in RFC 3339, else a
/// placeholder when absent or out of range.
pub open spec fn spec_report_date(r: VtReport) -> Seq<char> {
    match r.creation_date {
        Some(ts) => match rfc3339_of(ts as int) {
            Some(d) => d,
            None => ("FIXME")@,
        },
        None => ("FIXME")@,
    }
}

/// The web address of a file's report page.
pub open spec fn spec_vt_url(hash: Seq<char>) -> Seq<char> {
    ("https://www.virustotal.com/gui/file/")@ + hash
}

/// The lookup address shown for `hash`.
pub fn vt_url(hash: &str) -> (r: String)
    ensures
        r@ == spec_vt_url(hash@),
{
    let mut r = String::from_str("https://www.virustotal.com/gui/file/");
    r.append(hash);
    r
}

/// Classify a service response that arrived as a well-formed report: an
/// error marker or missing data means the hash is not yet published; any
/// other response is terminal, with every notification field pinned down.
pub fn classify_report(report: &VtReport, hash: &str) -> (r: CheckResult)
    requires
        spec_stats_total(report.stats) <= u64::MAX,
    ensures
        (report.error_present || !report.data_present) ==> r is NotFound,
        !(report.error_present || !report.data_present) ==> (r matches CheckResult::Found {
            filename,
            description,
            url,
            date,
            reputation,
            ratio,
            mal,
        } && filename@ == spec_report_name(*report) && description@ == spec_report_description(
            *report,
        ) && url@ == spec_vt_url(hash@) && date@ == spec_report_date(*report) && reputation == (
        match report.reputation {
            Some(v) => v,
            None => 0,
        }) && ratio@ == spec_ratio(report.stats) && mal == report.stats.malicious),
{
    if report.error_present || !report.data_present {
        return CheckResult::NotFound;
    }
    let filename = match &report.meaningful_name {
        Some(n) => n.clone(),
        None => match &report.first_name {
            Some(n) => n.clone(),
            None => String::from_str("FIXME"),
        },
    };
    let description = match &report.sig_description {
        Some(d) => d.clone(),
        None => match &report.threat_label {
            Some(d) => d.clone(),
            None => String::from_str("FIXME"),
        },
    };
    let url = vt_url(hash);
    let date = match report.creation_date {
        Some(ts) => match epoch_to_rfc3339(ts) {
            Some(d) => d,
            None => String::from_str("FIXME"),
        },
        None => String::from_str("FIXME"),
    };
    let reputation: i64 = match report.reputation {
        Some(v) => v,
        None => 0,
    };
    let score = vt_score(&report.stats);
    CheckResult::Found {
        filename,
        description,
        url,
        date,
        reputation,
        ratio: score.2,
        mal: score.0,
    }
}

/// Classify a failed lookup by its error text: a not-found marker means the
/// hash is not yet published, anything else is a transient service failure.
pub fn classify_error(msg: &str) -> (r: CheckResult)
    ensures
        r is NotFound <==> (is_substring(encode_utf8(msg@), encode_utf8(("NotFoundError")@))
            || is_substring(encode_utf8(msg@), encode_utf8(("404")@)) || is_substring(
            encode_utf8(msg@),
            encode_utf8(("not found")@),
        )),
        r is NotFound || r is TransientError,
{
    if contains_str(msg, "NotFoundError") || contains_str(msg, "404") || contains_str(
        msg,
        "not found",
    ) {
        CheckResult::NotFound
    } else {
        CheckResult::TransientError
    }
}

/// The notification text for a published hash.
pub open spec fn spec_found_message(
    filename: Seq<char>,
    description: Seq<char>,
    url: Seq<char>,
    date: Seq<char>,
    reputation: int,
    ratio: Seq<char>,
    mal: int,
) -> Seq<char> {
    ("!dende-rs::virustotal-watcher::matched!\n\nFilename: ")@ + filename + ("\nDescription: ")@
        + description + ("\nURL: ")@ + url + ("\nDate: ")@ + date + ("\nCommunity reputation: ")@
        + dec_int(reputation) + ("\nDetection score: ")@ + ratio + (" (")@ + dec_digits(mal) + (
    " engines flagged)")@
}

/// Compose the notification text for a published hash.
pub fn format_found_message(
    filename: &str,
    description: &str,
    url: &str,
    date: &str,
    reputation: i64,
    ratio: &str,
    mal: u64,
) -> (r: String)
    ensures
        r@ == spec_found_message(
            filename@,
            description@,
            url@,
            date@,
            reputation as int,
            ratio@,
            mal as int,
        ),
{
    let mut r = String::from_str("!dende-rs::virustotal-watcher::matched!\n\nFilename: ");
    r.append(filename);
    r.append("\nDescription: ");
    r.append(description);
    r.append("\nURL: ");
    r.append(url);
    r.append("\nDate: ");
    r.append(date);
    r.append("\nCommunity reputation: ");
    let rep = i64_to_string(reputation);
    r.append(rep.as_str());
    r.append("\nDetection score: ");
    r.append(ratio);
    r.append(" (");
    let m = u64_to_string(mal);
    r.append(m.as_str());
    r.append(" engines flagged)");
    proof {
        assert(r@ =~= spec_found_message(
            filename@,
            description@,
            url@,
            date@,
            reputation as int,
            ratio@,
            mal as int,
        ));
    }
    r
}

/// The FIFO of hashes still awaiting publication, owned by one poll job.
/// Duplicates are kept exactly as supplied.
pub struct PollScheduler {
    pub queue: VecDeque<String>,
}

impl PollScheduler {
    /// A scheduler seeded with the supplied hashes, in order.
    pub fn new(initial: &Vec<String>) -> (s: Self)
        ensures
            s.queue@ == initial@,
    {
        let mut queue: VecDeque<String> = VecDeque::new();
        let mut i: usize = 0;
        while i < initial.len()
            invariant
                i <= initial@.len(),
                queue@ =~= initial@.subrange(0, i as int),
            decreases initial@.len() - i,
        {
            queue.push_back(initial.get(i).unwrap().clone());
            proof {
                assert(initial@.subrange(0, i + 1) =~= initial@.subrange(0, i as int).push(
                    initial@[i as int],
                ));
            }
            i += 1;
        }
        proof {
            assert(initial@.subrange(0, initial@.len() as int) =~= initial@);
        }
        PollScheduler { queue }
    }

    /// One steady tick: take the head hash to issue a lookup for, or report
    /// the queue empty, which ends the job.
    pub fn on_tick(&mut self) -> (r: Option<String>)
        ensures
            match r {
                None => old(self).queue@.len() == 0 && final(self).queue@ == old(self).queue@,
                Some(h) => old(self).queue@.len() > 0 && h == old(self).queue@[0]
                    && final(self).queue@ == old(self).queue@.drop_first(),
            },
    {
        let r = self.queue.pop_front();
        proof {
            if old(self).queue@.len() > 0 {
                assert(old(self).queue@.subrange(1, old(self).queue@.len() as int) =~= old(
                    self,
                ).queue@.drop_first());
            }
        }
        r
    }

    /// Record the outcome of the lookup for `hash`: `Found` is terminal per
    /// hash and does not requeue it; `NotFound` and `TransientError` requeue
    /// it at the tail for unbounded retry.
    pub fn on_result(&mut self, hash: String, result: &CheckResult) -> (requeued: bool)
        ensures
            result is Found ==> !requeued && final(self).queue@ == old(self).queue@,
            !(result is Found) ==> requeued && final(self).queue@ == old(self).queue@.push(hash),
    {
        match result {
            CheckResult::Found { .. } => false,
            CheckResult::NotFound => {
                self.queue.push_back(hash);
                true
            },
            CheckResult::TransientError => {
                self.queue.push_back(hash);
                true
            },
        }
    }
}

/// One scheduling round on a non-empty queue: the head hash is issued once;
/// `Found` resolves it and the queue keeps exactly the entries behind it, so
/// that copy is never issued again; `NotFound` or `TransientError` put it
/// back at the tail, where a later tick reaches it, and the entries behind
/// the head keep their order either way.
pub proof fn lemma_queue_policy(q: Seq<Seq<char>>, found: bool)
    requires
        q.len() > 0,
    ensures
        ({
            let h = q[0];
            let after = if found {
                q.drop_first()
            } else {
                q.drop_first().push(h)
            };
            &&& found ==> after.len() == q.len() - 1 && (forall|k: int|
                0 <= k < after.len() ==> after[k] == q[k + 1])
            &&& !found ==> after.len() == q.len() && after[q.len() - 1] == h && (forall|k: int|
                0 <= k < q.len() - 1 ==> after[k] == q[k + 1])
        }),
{
}

} // verus!

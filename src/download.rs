//! The download orchestrator: the size probe, the progress reports of a
//! transfer, and the retry policy with exponential backoff.

use vstd::prelude::*;
use crate::progress::{DownloadProgress, percent_of};
use crate::text::{begins_with, find_text, occurs_in, starts_with_text, text_from, trim_text, trimmed};

verus! {

/// Attempts made before a download is given up.
pub const MAX_ATTEMPTS: u32 = 5;

/// Longest wait between two attempts, in seconds.
pub const BACKOFF_CAP_SECS: u64 = 30;

/// Size assumed when the size probe tells nothing: 500 MiB.
pub const SIZE_ESTIMATE: u64 = 524288000;

/// Marker of a progress report in the transfer's output.
pub const PROGRESS_MARKER: &'static str = "PROGRESS:";

/// Marker of the end of a transfer in its output.
pub const COMPLETE_MARKER: &'static str = "COMPLETE:";

/// Marker of the transfer method in its output.
pub const METHOD_MARKER: &'static str = "METHOD:";

/// The unsigned integer that a field of a JSON object text holds.
pub uninterp spec fn json_u64_field_value(text: Seq<char>, key: Seq<char>) -> Option<u64>;

/// Relies on `serde_json::from_str::<serde_json::Value>`, `Value::get` and
/// `Value::as_u64`: the field `key` of the JSON object in `text`, when it is an
/// unsigned integer that fits 64 bits.
#[verifier::external_body]
fn json_u64_field(text: &str, key: &str) -> (r: Option<u64>)
    ensures
        r == json_u64_field_value(text@, key@),
{
    serde_json::from_str::<serde_json::Value>(text).ok().and_then(|v| v.get(key).and_then(|f| f.as_u64()))
}

/// The character is an ASCII decimal digit.
pub open spec fn is_digit(c: char) -> bool {
    '0' <= c && c <= '9'
}

/// Value of a run of decimal digits.
pub open spec fn digits_value(s: Seq<char>) -> nat
    decreases s.len(),
{
    if s.len() == 0 {
        0
    } else {
        (10 * digits_value(s.drop_last()) + ((s.last() as u32) as int - 48)) as nat
    }
}

/// The digits of an unsigned decimal text: the text itself, or what follows a
/// leading plus sign.
pub open spec fn unsigned_digits(s: Seq<char>) -> Seq<char> {
    if s.len() > 0 && s[0] == '+' {
        s.drop_first()
    } else {
        s
    }
}

/// The value an unsigned decimal text denotes, when it denotes one that fits 64 bits.
pub open spec fn decimal_value(s: Seq<char>) -> Option<u64> {
    let d = unsigned_digits(s);
    if d.len() > 0 && (forall|i: int| 0 <= i < d.len() ==> is_digit(#[trigger] d[i]))
        && digits_value(d) <= u64::MAX {
        Some(digits_value(d) as u64)
    } else {
        None
    }
}

proof fn lemma_digits_value_grows(s: Seq<char>, i: int)
    requires
        0 <= i <= s.len(),
        forall|k: int| 0 <= k < s.len() ==> is_digit(#[trigger] s[k]),
    ensures
        digits_value(s.subrange(0, i)) <= digits_value(s),
    decreases s.len() - i,
{
    if i < s.len() {
        lemma_digits_value_grows(s, i + 1);
        assert(s.subrange(0, i + 1).drop_last() =~= s.subrange(0, i));
    } else {
        assert(s.subrange(0, i) =~= s);
    }
}

/// Reads an unsigned decimal text, as integer parsing does for `u64`.
pub fn parse_decimal(s: &str) -> (r: Option<u64>)
    ensures
        r == decimal_value(s@),
{
    let n = s.unicode_len();
    let start: usize = if n > 0 && s.get_char(0) == '+' { 1 } else { 0 };
    let ghost d = unsigned_digits(s@);
    proof {
        assert(d =~= s@.subrange(start as int, n as int));
    }
    if start >= n {
        return None;
    }
    let mut value: u64 = 0;
    let mut i: usize = start;
    while i < n
        invariant
            n == s@.len(),
            start <= i <= n,
            d == s@.subrange(start as int, n as int),
            d == unsigned_digits(s@),
            forall|k: int| 0 <= k < i - start ==> is_digit(#[trigger] d[k]),
            value == digits_value(d.subrange(0, i - start)),
        decreases n - i,
    {
        let c = s.get_char(i);
        proof {
            assert(d[i - start] == c);
            assert(d.subrange(0, i - start + 1).drop_last() =~= d.subrange(0, i - start));
        }
        if !('0' <= c && c <= '9') {
            proof {
                assert(!is_digit(d[i - start]));
                assert(decimal_value(s@) is None);
            }
            return None;
        }
        let digit: u64 = (c as u32 - '0' as u32) as u64;
        let next: u128 = (value as u128) * 10 + (digit as u128);
        proof {
            assert(digits_value(d.subrange(0, i - start + 1)) == next);
        }
        if next > u64::MAX as u128 {
            proof {
                if forall|k: int| 0 <= k < d.len() ==> is_digit(#[trigger] d[k]) {
                    lemma_digits_value_grows(d, i - start + 1);
                    assert(digits_value(d) > u64::MAX);
                }
                assert(decimal_value(s@) is None);
            }
            return None;
        }
        value = next as u64;
        i = i + 1;
    }
    proof {
        assert(d.subrange(0, (n - start) as int) =~= d);
    }
    Some(value)
}

/// What one line printed by the size probe tells: a size, unless the line
/// reports an error or is no unsigned number.
pub open spec fn probed_size(line: Seq<char>) -> Option<u64> {
    let t = trimmed(line);
    if begins_with(t, "Error"@) {
        None
    } else {
        decimal_value(t)
    }
}

/// Reads one line of the size probe's output.
pub fn size_from_probe_line(line: &str) -> (r: Option<u64>)
    ensures
        r == probed_size(line@),
{
    let t = trim_text(line);
    if starts_with_text(t, "Error") {
        None
    } else {
        parse_decimal(t)
    }
}

/// The size to report against: the probed size, or the fixed estimate when
/// the probe found none.
pub open spec fn effective_total(probed: u64) -> u64 {
    if probed == 0 { SIZE_ESTIMATE } else { probed }
}

/// The size to report against: the probed size, or the fixed estimate when
/// the probe found none.
pub fn total_or_estimate(probed: u64) -> (r: u64)
    ensures
        r == effective_total(probed),
        r > 0,
{
    if probed == 0 { SIZE_ESTIMATE } else { probed }
}

/// A line printed by a transfer, classified.
pub enum TransferLine {
    /// A progress report, with its percentage derived from the two counts.
    Progress(DownloadProgress),
    /// The transfer says it is complete.
    Complete,
    /// The transfer names the method it uses.
    Method(String),
    /// Anything else.
    Other,
}

/// The text after the first occurrence of `marker` in `line`, trimmed.
pub open spec fn after_marker(line: Seq<char>, marker: Seq<char>) -> Seq<char> {
    let i = choose|i: int|
        0 <= i && i + marker.len() <= line.len() && #[trigger] line.subrange(i, i + marker.len())
            == marker && forall|k: int| 0 <= k < i ==> #[trigger] line.subrange(k, k + marker.len()) != marker;
    trimmed(line.subrange(i + marker.len(), line.len() as int))
}

fn rest_after(line: &str, marker: &str) -> (r: Option<String>)
    ensures
        match r {
            Some(t) => occurs_in(line@, marker@) && t@ == after_marker(line@, marker@),
            None => !occurs_in(line@, marker@),
        },
{
    match find_text(line, marker) {
        Some(i) => {
            let ghost m = marker@;
            let ghost l = line@;
            proof {
                let j = choose|j: int|
                    0 <= j && j + m.len() <= l.len() && #[trigger] l.subrange(j, j + m.len()) == m
                        && forall|k: int| 0 <= k < j ==> #[trigger] l.subrange(k, k + m.len()) != m;
                assert(j == i) by {
                    if j < i {
                        assert(l.subrange(j, j + m.len()) != m);
                    } else if j > i {
                        assert(l.subrange(i as int, i + m.len()) != m);
                    }
                }
            }
            let _len = line.unicode_len();
            let tail = text_from(line, i + marker.unicode_len());
            Some(String::from_str(trim_text(tail.as_str())))
        },
        None => None,
    }
}

/// How a transfer's output line is read: progress reports carry a JSON
/// object with the byte counts; completion and method lines carry markers.
pub open spec fn transfer_line_kind(line: Seq<char>) -> Option<(nat, nat)> {
    if occurs_in(line, PROGRESS_MARKER@) {
        let payload = after_marker(line, PROGRESS_MARKER@);
        match (
            json_u64_field_value(payload, "bytesDownloaded"@),
            json_u64_field_value(payload, "totalBytes"@),
        ) {
            (Some(b), Some(t)) => Some((b as nat, t as nat)),
            _ => None,
        }
    } else {
        None
    }
}

/// Classifies a line printed by a transfer. A progress line gives a report
/// when its JSON object carries both byte counts; the percentage is derived
/// from them and clamped.
pub fn classify_transfer_line(line: &str) -> (r: TransferLine)
    ensures
        occurs_in(line@, PROGRESS_MARKER@) ==> match transfer_line_kind(line@) {
            Some((b, t)) => r matches TransferLine::Progress(p) && p.bytes_downloaded == b
                && p.total_bytes == t && p.percent_hundredths == percent_of(b, t),
            None => r is Other,
        },
        !occurs_in(line@, PROGRESS_MARKER@) && occurs_in(line@, COMPLETE_MARKER@) ==> r is Complete,
        !occurs_in(line@, PROGRESS_MARKER@) && !occurs_in(line@, COMPLETE_MARKER@) && occurs_in(
            line@,
            METHOD_MARKER@,
        ) ==> (r matches TransferLine::Method(m) && m@ == "Download method: "@ + after_marker(
            line@,
            METHOD_MARKER@,
        )),
        !occurs_in(line@, PROGRESS_MARKER@) && !occurs_in(line@, COMPLETE_MARKER@) && !occurs_in(
            line@,
            METHOD_MARKER@,
        ) ==> r is Other,
{
    match rest_after(line, PROGRESS_MARKER) {
        Some(payload) => {
            let bytes = json_u64_field(payload.as_str(), "bytesDownloaded");
            let total = json_u64_field(payload.as_str(), "totalBytes");
            match (bytes, total) {
                (Some(b), Some(t)) => TransferLine::Progress(DownloadProgress::new(b, t)),
                _ => TransferLine::Other,
            }
        },
        None => {
            if crate::text::contains_text(line, COMPLETE_MARKER) {
                TransferLine::Complete
            } else {
                match rest_after(line, METHOD_MARKER) {
                    Some(rest) => {
                        let mut m = String::from_str("Download method: ");
                        m.append(rest.as_str());
                        TransferLine::Method(m)
                    },
                    None => TransferLine::Other,
                }
            }
        },
    }
}

/// Seconds to wait after `failed` failed attempts: doubling from two
/// seconds, never above the cap.
pub open spec fn backoff(failed: nat) -> nat
    decreases failed,
{
    if failed == 0 {
        1
    } else {
        let d = 2 * backoff((failed - 1) as nat);
        if d > BACKOFF_CAP_SECS { BACKOFF_CAP_SECS as nat } else { d }
    }
}

/// Seconds to wait after `failed` failed attempts.
pub fn backoff_seconds(failed: u32) -> (r: u64)
    ensures
        r == backoff(failed as nat),
        r <= BACKOFF_CAP_SECS || failed == 0,
{
    let mut wait: u64 = 1;
    let mut k: u32 = 0;
    while k < failed
        invariant
            k <= failed,
            wait == backoff(k as nat),
            wait <= BACKOFF_CAP_SECS,
        decreases failed - k,
    {
        let d = 2 * wait;
        wait = if d > BACKOFF_CAP_SECS { BACKOFF_CAP_SECS } else { d };
        k = k + 1;
    }
    wait
}

/// Where a download stands: the attempt in progress (numbered from one), the
/// promotion of a verified temporary file, or the end.
#[derive(PartialEq, Eq, Structural, Clone, Copy, Debug)]
pub enum TransferState {
    Transferring(u32),
    Promoting(u32),
    Succeeded,
    Failed,
}

/// What the host reports about the current attempt.
#[derive(PartialEq, Eq, Structural, Clone, Copy, Debug)]
pub enum AttemptReport {
    /// The transfer failed.
    TransferFailed,
    /// The transfer ended; the temporary file holds this many bytes (zero when missing).
    Transferred(u64),
    /// Moving the temporary file to the destination failed.
    PromotionFailed,
    /// The destination now holds this many bytes (zero when missing).
    Promoted(u64),
}

/// What the host does next.
#[derive(PartialEq, Eq, Structural, Clone, Copy, Debug)]
pub enum TransferAction {
    /// Move the verified temporary file to the destination.
    Promote,
    /// Wait this many seconds, then make the next attempt.
    RetryAfter(u64),
    /// The destination holds the whole file.
    Done,
    /// Every attempt failed; the destination was never written.
    GiveUp,
    /// The report does not fit the current state; nothing changes.
    Ignore,
}

/// The state after a failed attempt `k` of at most `max`.
pub open spec fn after_failure(k: u32, max: u32) -> TransferState {
    if k >= max { TransferState::Failed } else { TransferState::Transferring((k + 1) as u32) }
}

/// The state after `report` arrives in state `s`.
pub open spec fn after_report(s: TransferState, max: u32, report: AttemptReport) -> TransferState {
    match (s, report) {
        (TransferState::Transferring(k), AttemptReport::Transferred(n)) => if n > 0 {
            TransferState::Promoting(k)
        } else {
            after_failure(k, max)
        },
        (TransferState::Transferring(k), AttemptReport::TransferFailed) => after_failure(k, max),
        (TransferState::Promoting(k), AttemptReport::Promoted(n)) => if n > 0 {
            TransferState::Succeeded
        } else {
            after_failure(k, max)
        },
        (TransferState::Promoting(k), AttemptReport::PromotionFailed) => after_failure(k, max),
        _ => s,
    }
}

/// The action that goes with moving from `s` to `t` (attempt `k` having failed
/// when `t` is a later attempt).
pub open spec fn action_between(s: TransferState, t: TransferState) -> TransferAction {
    match t {
        TransferState::Promoting(_) => if s != t { TransferAction::Promote } else { TransferAction::Ignore },
        TransferState::Transferring(j) => if s != t {
            TransferAction::RetryAfter(backoff((j - 1) as nat) as u64)
        } else {
            TransferAction::Ignore
        },
        TransferState::Succeeded => if s != t { TransferAction::Done } else { TransferAction::Ignore },
        TransferState::Failed => if s != t { TransferAction::GiveUp } else { TransferAction::Ignore },
    }
}

/// The retry policy of one download.
pub struct DownloadRetry {
    state: TransferState,
    max_attempts: u32,
}

impl DownloadRetry {
    pub closed spec fn spec_state(&self) -> TransferState {
        self.state
    }

    pub closed spec fn spec_max_attempts(&self) -> u32 {
        self.max_attempts
    }

    /// Attempts are numbered from one up to the maximum.
    pub open spec fn wf(&self) -> bool {
        &&& 1 <= self.spec_max_attempts()
        &&& match self.spec_state() {
            TransferState::Transferring(k) => 1 <= k <= self.spec_max_attempts(),
            TransferState::Promoting(k) => 1 <= k <= self.spec_max_attempts(),
            _ => true,
        }
    }

    /// A download about to make its first of at most `max_attempts` attempts.
    pub fn new(max_attempts: u32) -> (r: Self)
        requires
            max_attempts >= 1,
        ensures
            r.wf(),
            r.spec_state() == TransferState::Transferring(1),
            r.spec_max_attempts() == max_attempts,
    {
        DownloadRetry { state: TransferState::Transferring(1), max_attempts }
    }

    /// Where the download stands.
    pub fn state(&self) -> (r: TransferState)
        ensures
            r == self.spec_state(),
    {
        self.state
    }

    /// Takes in the report on the current attempt. A transfer that ends with a
    /// nonempty temporary file is promoted; a promotion that leaves a nonempty
    /// destination ends the download. Any failure, an empty or missing file
    /// included, leads to the next attempt after the backoff wait, or, after
    /// the last attempt, to giving up.
    pub fn on_report(&mut self, report: AttemptReport) -> (r: TransferAction)
        requires
            old(self).wf(),
        ensures
            final(self).wf(),
            final(self).spec_max_attempts() == old(self).spec_max_attempts(),
            final(self).spec_state() == after_report(old(self).spec_state(), old(self).spec_max_attempts(), report),
            r == action_between(old(self).spec_state(), final(self).spec_state()),
            r == TransferAction::Promote ==> (report matches AttemptReport::Transferred(n) && n > 0),
            r == TransferAction::Done ==> (report matches AttemptReport::Promoted(n) && n > 0),
    {
        let max = self.max_attempts;
        let next = match (self.state, report) {
            (TransferState::Transferring(k), AttemptReport::Transferred(n)) => if n > 0 {
                TransferState::Promoting(k)
            } else {
                Self::failed_attempt(k, max)
            },
            (TransferState::Transferring(k), AttemptReport::TransferFailed) => Self::failed_attempt(k, max),
            (TransferState::Promoting(k), AttemptReport::Promoted(n)) => if n > 0 {
                TransferState::Succeeded
            } else {
                Self::failed_attempt(k, max)
            },
            (TransferState::Promoting(k), AttemptReport::PromotionFailed) => Self::failed_attempt(k, max),
            _ => self.state,
        };
        let old_state = self.state;
        self.state = next;
        if next == old_state {
            return TransferAction::Ignore;
        }
        match next {
            TransferState::Promoting(_) => TransferAction::Promote,
            TransferState::Transferring(j) => TransferAction::RetryAfter(backoff_seconds(j - 1)),
            TransferState::Succeeded => TransferAction::Done,
            TransferState::Failed => TransferAction::GiveUp,
        }
    }

    fn failed_attempt(k: u32, max: u32) -> (r: TransferState)
        requires
            1 <= k <= max,
        ensures
            r == after_failure(k, max),
    {
        if k >= max { TransferState::Failed } else { TransferState::Transferring(k + 1) }
    }
}

/// Reason given when every attempt failed.
pub fn exhausted_message(max_attempts: u32) -> (r: String)
    ensures
        r@ == "All "@ + crate::text::decimal(max_attempts as nat) + " download attempts failed"@,
{
    let mut s = String::from_str("All ");
    let n = crate::text::decimal_string(max_attempts as u64);
    s.append(n.as_str());
    s.append(" download attempts failed");
    s
}

/// The state after the reports `reports` arrive in turn, starting from `s`.
pub open spec fn run_reports(s: TransferState, max: u32, reports: Seq<AttemptReport>) -> TransferState
    decreases reports.len(),
{
    if reports.len() == 0 {
        s
    } else {
        run_reports(after_report(s, max, reports[0]), max, reports.drop_first())
    }
}

/// The actions asked for, in order, while the reports `reports` arrive.
pub open spec fn actions_during(s: TransferState, max: u32, reports: Seq<AttemptReport>) -> Seq<
    TransferAction,
>
    decreases reports.len(),
{
    if reports.len() == 0 {
        seq![]
    } else {
        let t = after_report(s, max, reports[0]);
        seq![action_between(s, t)] + actions_during(t, max, reports.drop_first())
    }
}

/// `k` failed transfers.
pub open spec fn failed_transfers(k: nat) -> Seq<AttemptReport> {
    Seq::new(k, |i: int| AttemptReport::TransferFailed)
}

proof fn lemma_failures_from(j: u32, max: u32, k: nat)
    requires
        1 <= j <= max,
        k <= max - j + 1,
    ensures
        k == max - j + 1 ==> run_reports(TransferState::Transferring(j), max, failed_transfers(k))
            == TransferState::Failed,
        k < max - j + 1 ==> run_reports(TransferState::Transferring(j), max, failed_transfers(k))
            == TransferState::Transferring((j + k) as u32),
        !actions_during(TransferState::Transferring(j), max, failed_transfers(k)).contains(
            TransferAction::Promote,
        ),
    decreases k,
{
    if k > 0 {
        let s = TransferState::Transferring(j);
        let t = after_report(s, max, AttemptReport::TransferFailed);
        assert(failed_transfers(k).drop_first() =~= failed_transfers((k - 1) as nat));
        assert(failed_transfers(k)[0] == AttemptReport::TransferFailed);
        let rest = actions_during(t, max, failed_transfers((k - 1) as nat));
        if j < max {
            lemma_failures_from((j + 1) as u32, max, (k - 1) as nat);
        } else {
            assert(t == TransferState::Failed);
            lemma_failed_download_stays((k - 1) as nat, max);
        }
        let all = actions_during(s, max, failed_transfers(k));
        assert(all =~= seq![action_between(s, t)] + rest);
        assert(action_between(s, t) != TransferAction::Promote);
        if all.contains(TransferAction::Promote) {
            let i = choose|i: int| 0 <= i < all.len() && all[i] == TransferAction::Promote;
            assert(i > 0);
            assert(rest[i - 1] == TransferAction::Promote);
        }
    } else {
        assert(actions_during(TransferState::Transferring(j), max, failed_transfers(k)) =~= seq![]);
    }
}

proof fn lemma_failed_download_stays(k: nat, max: u32)
    ensures
        run_reports(TransferState::Failed, max, failed_transfers(k)) == TransferState::Failed,
        !actions_during(TransferState::Failed, max, failed_transfers(k)).contains(
            TransferAction::Promote,
        ),
    decreases k,
{
    if k > 0 {
        assert(failed_transfers(k).drop_first() =~= failed_transfers((k - 1) as nat));
        lemma_failed_download_stays((k - 1) as nat, max);
        let rest = actions_during(TransferState::Failed, max, failed_transfers((k - 1) as nat));
        let all = actions_during(TransferState::Failed, max, failed_transfers(k));
        assert(all =~= seq![TransferAction::Ignore] + rest);
        if all.contains(TransferAction::Promote) {
            let i = choose|i: int| 0 <= i < all.len() && all[i] == TransferAction::Promote;
            assert(rest[i - 1] == TransferAction::Promote);
        }
    } else {
        assert(actions_during(TransferState::Failed, max, failed_transfers(k)) =~= seq![]);
    }
}

/// A download whose every one of its `max` attempts fails ends failed, and
/// never asks for the destination to be written.
pub proof fn lemma_exhausted_download_never_promotes(max: u32)
    requires
        max >= 1,
    ensures
        run_reports(TransferState::Transferring(1), max, failed_transfers(max as nat))
            == TransferState::Failed,
        !actions_during(TransferState::Transferring(1), max, failed_transfers(max as nat)).contains(
            TransferAction::Promote,
        ),
{
    lemma_failures_from(1, max, max as nat);
}

/// Transient failures are absorbed: after `f` failed transfers with attempts
/// left, a transfer of `n > 0` bytes that is then promoted with `n` bytes at
/// the destination ends the download successfully.
pub proof fn lemma_transient_failures_recover(max: u32, f: nat, n: u64)
    requires
        f < max,
        n > 0,
    ensures
        run_reports(
            TransferState::Transferring(1),
            max,
            failed_transfers(f) + seq![AttemptReport::Transferred(n), AttemptReport::Promoted(n)],
        ) == TransferState::Succeeded,
{
    lemma_failures_from(1, max, f);
    let tail = seq![AttemptReport::Transferred(n), AttemptReport::Promoted(n)];
    lemma_reports_concat(TransferState::Transferring(1), max, failed_transfers(f), tail);
    let s = TransferState::Transferring((1 + f) as u32);
    assert(tail.drop_first() =~= seq![AttemptReport::Promoted(n)]);
    assert(seq![AttemptReport::Promoted(n)].drop_first() =~= Seq::<AttemptReport>::empty());
    let p = TransferState::Promoting((1 + f) as u32);
    let last = seq![AttemptReport::Promoted(n)];
    assert(after_report(s, max, tail[0]) == p);
    assert(after_report(p, max, last[0]) == TransferState::Succeeded);
    assert(run_reports(TransferState::Succeeded, max, last.drop_first()) == TransferState::Succeeded);
    assert(run_reports(p, max, last) == TransferState::Succeeded);
    assert(run_reports(s, max, tail) == run_reports(p, max, last));
}

proof fn lemma_reports_concat(
    s: TransferState,
    max: u32,
    a: Seq<AttemptReport>,
    b: Seq<AttemptReport>,
)
    ensures
        run_reports(s, max, a + b) == run_reports(run_reports(s, max, a), max, b),
    decreases a.len(),
{
    if a.len() == 0 {
        assert(a + b =~= b);
    } else {
        assert((a + b).drop_first() =~= a.drop_first() + b);
        lemma_reports_concat(after_report(s, max, a[0]), max, a.drop_first(), b);
    }
}

} // verus!

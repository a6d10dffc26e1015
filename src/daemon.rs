//! Statistics of local daemons (a DHCP server and a DNS resolver), kept
//! in a snapshot that a background fetch refreshes and a scrape reads.

use vstd::prelude::*;
use vstd::string::*;
use crate::text::{
    has_prefix, lines, parse_u64, parse_u64_spec, split_lines, starts_with, strings_view,
};

verus! {

/// Why a fetch from a daemon failed.
#[derive(Clone, Copy, Debug, PartialEq, Eq, Structural)]
pub enum FetchError {
    /// The control socket does not exist: the daemon is likely not in use.
    SocketMissing,
    /// Connecting, sending or receiving failed otherwise.
    Io,
    /// The response could not be read.
    Parse,
    /// The daemon answered with a result code other than 0 (or none).
    BadResult(Option<u64>),
}

/// How loudly a failure is reported.
#[derive(Clone, Copy, Debug, PartialEq, Eq, Structural)]
pub enum Severity {
    Low,
    Error,
}

impl FetchError {
    pub open spec fn severity_spec(self) -> Severity {
        if self is SocketMissing {
            Severity::Low
        } else {
            Severity::Error
        }
    }

    /// A missing socket is low-severity; every other failure is an error.
    pub fn severity(&self) -> (r: Severity)
        ensures
            r == self.severity_spec(),
    {
        match self {
            FetchError::SocketMissing => Severity::Low,
            _ => Severity::Error,
        }
    }
}

/// The snapshot after one fetch: a success replaces it, a failure keeps
/// the previous one.
pub open spec fn next_snapshot<T>(cur: Option<T>, outcome: Result<T, FetchError>) -> Option<T> {
    match outcome {
        Ok(v) => Some(v),
        Err(_) => cur,
    }
}

/// The snapshot after a series of fetches, in order.
pub open spec fn after_fetches<T>(cur: Option<T>, outcomes: Seq<Result<T, FetchError>>) -> Option<T>
    decreases outcomes.len(),
{
    if outcomes.len() == 0 {
        cur
    } else {
        after_fetches(next_snapshot(cur, outcomes[0]), outcomes.drop_first())
    }
}

/// Failed fetches leave the snapshot as it was, whatever it was.
pub proof fn lemma_failures_keep_snapshot<T>(cur: Option<T>, outcomes: Seq<Result<T, FetchError>>)
    requires
        forall|i: int| 0 <= i < outcomes.len() ==> (#[trigger] outcomes[i]) is Err,
    ensures
        after_fetches(cur, outcomes) == cur,
    decreases outcomes.len(),
{
    if outcomes.len() > 0 {
        assert(outcomes[0] is Err);
        let rest = outcomes.drop_first();
        assert forall|i: int| 0 <= i < rest.len() implies (#[trigger] rest[i]) is Err by {
            assert(rest[i] == outcomes[i + 1]);
        }
        lemma_failures_keep_snapshot(cur, rest);
    }
}

/// After one successful fetch, any number of failed fetches leave the
/// scrape reading the values of that success.
pub proof fn lemma_success_then_failures<T>(
    cur: Option<T>,
    v: T,
    failures: Seq<Result<T, FetchError>>,
)
    requires
        forall|i: int| 0 <= i < failures.len() ==> (#[trigger] failures[i]) is Err,
    ensures
        after_fetches(cur, seq![Ok(v)] + failures) == Some(v),
{
    let all = seq![Ok(v)] + failures;
    assert(all.drop_first() =~= failures);
    lemma_failures_keep_snapshot(Some(v), failures);
}

/// The last values a daemon reported, or none before its first success.
pub struct SnapshotCell<T> {
    pub last: Option<T>,
}

impl<T> SnapshotCell<T> {
    pub fn new() -> (r: SnapshotCell<T>)
        ensures
            r.last is None,
    {
        SnapshotCell { last: None }
    }

    /// What a scrape reads.
    pub fn get(&self) -> (r: Option<&T>)
        ensures
            r is None <==> self.last is None,
            r matches Some(v) ==> self.last == Some(*v),
    {
        match &self.last {
            Some(v) => Some(v),
            None => None,
        }
    }

    /// Records the outcome of one fetch, and returns the severity with
    /// which a failure is to be reported.
    pub fn record(&mut self, outcome: Result<T, FetchError>) -> (r: Option<Severity>)
        ensures
            final(self).last == next_snapshot(old(self).last, outcome),
            r == match outcome {
                Ok(_) => None,
                Err(e) => Some(e.severity_spec()),
            },
    {
        match outcome {
            Ok(v) => {
                self.last = Some(v);
                None
            },
            Err(e) => Some(e.severity()),
        }
    }
}

/// DHCP server counters, with the time of capture in milliseconds since
/// the epoch.
#[derive(Clone, Copy, Debug, PartialEq, Eq, Structural)]
pub struct KeaStats {
    pub timestamp_ms: u64,
    pub pkt4_received: u64,
    pub pkt4_sent: u64,
    pub v4_allocation_fail: u64,
}

/// The one command sent to the DHCP server's control socket.
pub fn kea_request() -> (r: &'static str)
    ensures
        r@ == "{\"command\":\"statistic-get-all\"}"@,
{
    "{\"command\":\"statistic-get-all\"}"
}

/// The JSON pointers of the values read from the DHCP server's answer:
/// the result code, then the first sample of each statistic.
pub fn kea_pointers() -> (r: [&'static str; 4])
    ensures
        r[0]@ == "/result"@,
        r[1]@ == "/arguments/pkt4-received/0/0"@,
        r[2]@ == "/arguments/pkt4-sent/0/0"@,
        r[3]@ == "/arguments/v4-allocation-fail/0/0"@,
{
    [
        "/result",
        "/arguments/pkt4-received/0/0",
        "/arguments/pkt4-sent/0/0",
        "/arguments/v4-allocation-fail/0/0",
    ]
}

/// The DHCP counters from the values found at the four pointers: the
/// result code must be 0; a counter that is absent counts as 0.
pub open spec fn kea_stats_spec(
    result: Option<u64>,
    received: Option<u64>,
    sent: Option<u64>,
    alloc_fail: Option<u64>,
    timestamp_ms: u64,
) -> Result<KeaStats, FetchError> {
    if result == Some(0u64) {
        Ok(
            KeaStats {
                timestamp_ms,
                pkt4_received: received.unwrap_or(0),
                pkt4_sent: sent.unwrap_or(0),
                v4_allocation_fail: alloc_fail.unwrap_or(0),
            },
        )
    } else {
        Err(FetchError::BadResult(result))
    }
}

pub fn kea_stats_from(
    result: Option<u64>,
    received: Option<u64>,
    sent: Option<u64>,
    alloc_fail: Option<u64>,
    timestamp_ms: u64,
) -> (r: Result<KeaStats, FetchError>)
    ensures
        r == kea_stats_spec(result, received, sent, alloc_fail, timestamp_ms),
{
    match result {
        Some(0) => {},
        _ => return Err(FetchError::BadResult(result)),
    }
    Ok(
        KeaStats {
            timestamp_ms,
            pkt4_received: match received {
                Some(v) => v,
                None => 0,
            },
            pkt4_sent: match sent {
                Some(v) => v,
                None => 0,
            },
            v4_allocation_fail: match alloc_fail {
                Some(v) => v,
                None => 0,
            },
        },
    )
}

/// Whether the bytes are one JSON document.
pub uninterp spec fn json_doc_ok(buf: Seq<u8>) -> bool;

/// The unsigned integer that a JSON pointer designates in the document
/// the bytes hold, if it designates one.
pub uninterp spec fn json_u64_at(buf: Seq<u8>, pointer: Seq<char>) -> Option<u64>;

/// Relies on `serde_json::from_slice`, `serde_json::Value::pointer` and
/// `serde_json::Value::as_u64`: decodes the bytes as a JSON document
/// (`None` where they are not one) and reads the unsigned integer at the
/// pointer. Each depends on its arguments alone.
#[verifier::external_body]
fn u64_at_bytes(buf: &[u8], pointer: &str) -> (r: Option<Option<u64>>)
    ensures
        r is Some <==> json_doc_ok(buf@),
        r matches Some(v) ==> v == json_u64_at(buf@, pointer@),
{
    serde_json::from_slice::<serde_json::Value>(buf).ok().map(
        |d| d.pointer(pointer).and_then(serde_json::Value::as_u64),
    )
}

/// Reads the DHCP server's answer. Bytes that are not a JSON document
/// are a parse failure; otherwise the counters are those of
/// `kea_stats_spec` on the values at the pointers of `kea_pointers`.
pub fn parse_kea_response(buf: &[u8], timestamp_ms: u64) -> (r: Result<KeaStats, FetchError>)
    ensures
        r == if json_doc_ok(buf@) {
            kea_stats_spec(
                json_u64_at(buf@, "/result"@),
                json_u64_at(buf@, "/arguments/pkt4-received/0/0"@),
                json_u64_at(buf@, "/arguments/pkt4-sent/0/0"@),
                json_u64_at(buf@, "/arguments/v4-allocation-fail/0/0"@),
                timestamp_ms,
            )
        } else {
            Err(FetchError::Parse)
        },
{
    let p = kea_pointers();
    let result = match u64_at_bytes(buf, p[0]) {
        Some(v) => v,
        None => return Err(FetchError::Parse),
    };
    let received = match u64_at_bytes(buf, p[1]) {
        Some(v) => v,
        None => return Err(FetchError::Parse),
    };
    let sent = match u64_at_bytes(buf, p[2]) {
        Some(v) => v,
        None => return Err(FetchError::Parse),
    };
    let alloc_fail = match u64_at_bytes(buf, p[3]) {
        Some(v) => v,
        None => return Err(FetchError::Parse),
    };
    kea_stats_from(result, received, sent, alloc_fail, timestamp_ms)
}

/// DNS resolver counters, with the time of capture in milliseconds since
/// the epoch.
#[derive(Clone, Copy, Debug, PartialEq, Eq, Structural)]
pub struct UnboundStats {
    pub timestamp_ms: u64,
    pub total_num_queries: u64,
    pub total_num_queries_timed_out: u64,
}

/// The one command sent to the resolver's control socket.
pub fn unbound_request() -> (r: &'static str)
    ensures
        r@ == "UBCT1 stats_noreset\n"@,
{
    "UBCT1 stats_noreset\n"
}

pub open spec fn queries_key() -> Seq<char> {
    "total.num.queries="@
}

pub open spec fn timeouts_key() -> Seq<char> {
    "total.num.queries_timed_out="@
}

/// The two counters after the first `i` lines of `key=value` text; a
/// value of a tracked key that is not a number fails the whole answer.
pub open spec fn unbound_scan(ls: Seq<Seq<char>>, i: int) -> Option<(u64, u64)>
    decreases i,
{
    if i <= 0 {
        Some((0, 0))
    } else {
        match unbound_scan(ls, i - 1) {
            None => None,
            Some((q, t)) => {
                let l = ls[i - 1];
                if has_prefix(l, queries_key()) {
                    match parse_u64_spec(l.subrange(queries_key().len() as int, l.len() as int)) {
                        Some(v) => Some((v, t)),
                        None => None,
                    }
                } else if has_prefix(l, timeouts_key()) {
                    match parse_u64_spec(l.subrange(timeouts_key().len() as int, l.len() as int)) {
                        Some(v) => Some((q, v)),
                        None => None,
                    }
                } else {
                    Some((q, t))
                }
            },
        }
    }
}

pub open spec fn unbound_stats_spec(text: Seq<char>, timestamp_ms: u64) -> Result<
    UnboundStats,
    FetchError,
> {
    match unbound_scan(lines(text), lines(text).len() as int) {
        Some((q, t)) => Ok(
            UnboundStats { timestamp_ms, total_num_queries: q, total_num_queries_timed_out: t },
        ),
        None => Err(FetchError::Parse),
    }
}

proof fn lemma_unbound_none(ls: Seq<Seq<char>>, i: int, j: int)
    requires
        0 <= i <= j,
        unbound_scan(ls, i) is None,
    ensures
        unbound_scan(ls, j) is None,
    decreases j - i,
{
    if j > i {
        lemma_unbound_none(ls, i, j - 1);
    }
}

/// Reads the resolver's answer.
pub fn parse_unbound_response(text: &str, timestamp_ms: u64) -> (r: Result<
    UnboundStats,
    FetchError,
>)
    ensures
        r == unbound_stats_spec(text@, timestamp_ms),
{
    let ls = split_lines(text);
    let ghost lv = strings_view(ls@);
    let qk = "total.num.queries=";
    let tk = "total.num.queries_timed_out=";
    proof {
        reveal_strlit("total.num.queries=");
        reveal_strlit("total.num.queries_timed_out=");
    }
    let qn = qk.unicode_len();
    let tn = tk.unicode_len();
    let mut q: u64 = 0;
    let mut t: u64 = 0;
    let mut i: usize = 0;
    while i < ls.len()
        invariant
            lv == strings_view(ls@),
            lv == lines(text@),
            i <= ls@.len(),
            qk@ == queries_key(),
            tk@ == timeouts_key(),
            qn == qk@.len(),
            tn == tk@.len(),
            unbound_scan(lv, i as int) == Some((q, t)),
        decreases ls@.len() - i,
    {
        let l = ls[i].as_str();
        if starts_with(l, qk) {
            let rest = l.substring_char(qn, l.unicode_len());
            match parse_u64(rest) {
                Some(v) => q = v,
                None => {
                    proof {
                        lemma_unbound_none(lv, i + 1, lv.len() as int);
                    }
                    return Err(FetchError::Parse);
                },
            }
        } else if starts_with(l, tk) {
            let rest = l.substring_char(tn, l.unicode_len());
            match parse_u64(rest) {
                Some(v) => t = v,
                None => {
                    proof {
                        lemma_unbound_none(lv, i + 1, lv.len() as int);
                    }
                    return Err(FetchError::Parse);
                },
            }
        }
        i = i + 1;
    }
    Ok(UnboundStats { timestamp_ms, total_num_queries: q, total_num_queries_timed_out: t })
}

} // verus!

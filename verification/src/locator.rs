//! Locating and starting the backing service.
//!
//! The I/O layer asks the host for a status report and hands its text
//! here: `extract_service_uri` finds the first `http://host:port` in it.
//! Starting the service is a bounded poll: the pure decision steps live
//! here, the spawn and the sleeps live with the I/O layer.

use vstd::prelude::*;

verus! {

/// Characters a host name may contain: letters, digits, `.` and `-`.
pub open spec fn is_host_char(c: char) -> bool {
    ('a' <= c && c <= 'z') || ('A' <= c && c <= 'Z') || ('0' <= c && c <= '9') || c == '.' || c
        == '-'
}

pub open spec fn is_digit_char(c: char) -> bool {
    '0' <= c && c <= '9'
}

/// `http://` spelled out at position `i`.
pub open spec fn is_http_prefix_at(s: Seq<char>, i: int) -> bool {
    &&& 0 <= i
    &&& i + 7 <= s.len()
    &&& s[i] == 'h'
    &&& s[i + 1] == 't'
    &&& s[i + 2] == 't'
    &&& s[i + 3] == 'p'
    &&& s[i + 4] == ':'
    &&& s[i + 5] == '/'
    &&& s[i + 6] == '/'
}

/// End of the maximal host-character run starting at `j`.
pub open spec fn host_end(s: Seq<char>, j: int) -> int
    decreases s.len() - j,
{
    if 0 <= j < s.len() && is_host_char(s[j]) {
        host_end(s, j + 1)
    } else {
        j
    }
}

/// End of the maximal digit run starting at `j`.
pub open spec fn digit_end(s: Seq<char>, j: int) -> int
    decreases s.len() - j,
{
    if 0 <= j < s.len() && is_digit_char(s[j]) {
        digit_end(s, j + 1)
    } else {
        j
    }
}

/// A whole service URI starts at `i`: `http://`, a non-empty host, `:`,
/// and at least one port digit.
pub open spec fn uri_match_at(s: Seq<char>, i: int) -> bool {
    &&& is_http_prefix_at(s, i)
    &&& {
        let h = host_end(s, i + 7);
        &&& h > i + 7
        &&& h < s.len()
        &&& s[h] == ':'
        &&& digit_end(s, h + 1) > h + 1
    }
}

/// The URI text matched at `i`: through the end of the port digits.
pub open spec fn uri_at(s: Seq<char>, i: int) -> Seq<char> {
    s.subrange(i, digit_end(s, host_end(s, i + 7) + 1))
}

/// First position at or after `i` where a URI matches, `-1` if none does.
pub open spec fn first_uri_from(s: Seq<char>, i: int) -> int
    decreases s.len() - i,
{
    if i < 0 || i >= s.len() {
        -1
    } else if uri_match_at(s, i) {
        i
    } else {
        first_uri_from(s, i + 1)
    }
}

/// What scanning a status text yields: the first `http://host:port` in it.
pub open spec fn extracted_uri(s: Seq<char>) -> Option<Seq<char>> {
    let p = first_uri_from(s, 0);
    if p == -1 {
        None
    } else {
        Some(uri_at(s, p))
    }
}

proof fn lemma_first_uri_step(s: Seq<char>, j: int, i: int)
    requires
        0 <= j <= i <= s.len(),
        forall|m: int| j <= m < i ==> !uri_match_at(s, m),
    ensures
        first_uri_from(s, j) == first_uri_from(s, i),
    decreases i - j,
{
    if j < i {
        assert(!uri_match_at(s, j));
        lemma_first_uri_step(s, j + 1, i);
    }
}

proof fn lemma_host_end_at(s: Seq<char>, j: int, h: int)
    requires
        0 <= j <= h <= s.len(),
        forall|m: int| j <= m < h ==> is_host_char(s[m]),
        h < s.len() ==> !is_host_char(s[h]),
    ensures
        host_end(s, j) == h,
    decreases h - j,
{
    if j < h {
        lemma_host_end_at(s, j + 1, h);
    }
}

proof fn lemma_digit_end_at(s: Seq<char>, j: int, e: int)
    requires
        0 <= j <= e <= s.len(),
        forall|m: int| j <= m < e ==> is_digit_char(s[m]),
        e < s.len() ==> !is_digit_char(s[e]),
    ensures
        digit_end(s, j) == e,
    decreases e - j,
{
    if j < e {
        lemma_digit_end_at(s, j + 1, e);
    }
}

fn host_char_exec(c: char) -> (r: bool)
    ensures
        r == is_host_char(c),
{
    ('a' <= c && c <= 'z') || ('A' <= c && c <= 'Z') || ('0' <= c && c <= '9') || c == '.' || c
        == '-'
}

/// Scan status-report text for the first `http://host:port` and hand it
/// back, port digits included.
pub fn extract_service_uri(text: &str) -> (r: Option<String>)
    ensures
        match r {
            Some(uri) => extracted_uri(text@) == Some(uri@),
            None => extracted_uri(text@) is None,
        },
{
    let ghost s = text@;
    let n = text.unicode_len();
    let mut i: usize = 0;
    while i < n
        invariant
            0 <= i <= n,
            s == text@,
            n == s.len(),
            forall|m: int| 0 <= m < i ==> !uri_match_at(s, m),
        decreases n - i,
    {
        // `http://` spelled out at `i`?
        if n - i >= 7 && text.get_char(i) == 'h' && text.get_char(i + 1) == 't' && text.get_char(
            i + 2,
        ) == 't' && text.get_char(i + 3) == 'p' && text.get_char(i + 4) == ':' && text.get_char(
            i + 5,
        ) == '/' && text.get_char(i + 6) == '/' {
            // Maximal host run.
            let mut h: usize = i + 7;
            while h < n && host_char_exec(text.get_char(h))
                invariant
                    i + 7 <= h <= n,
                    s == text@,
                    n == s.len(),
                    forall|m: int| i + 7 <= m < h ==> is_host_char(s[m]),
                decreases n - h,
            {
                h += 1;
            }
            proof {
                lemma_host_end_at(s, i as int + 7, h as int);
            }
            if h > i + 7 && h < n && text.get_char(h) == ':' {
                // Maximal port-digit run.
                let mut e: usize = h + 1;
                while e < n && '0' <= text.get_char(e) && text.get_char(e) <= '9'
                    invariant
                        h + 1 <= e <= n,
                        h + 1 <= n,
                        s == text@,
                        n == s.len(),
                        forall|m: int| h + 1 <= m < e ==> is_digit_char(s[m]),
                    decreases n - e,
                {
                    e += 1;
                }
                proof {
                    lemma_digit_end_at(s, h as int + 1, e as int);
                }
                if e > h + 1 {
                    proof {
                        assert(uri_match_at(s, i as int));
                        lemma_first_uri_step(s, 0, i as int);
                    }
                    let m = text.substring_char(i, e);
                    return Some(m.to_owned());
                }
            }
        }
        proof {
            assert(!uri_match_at(s, i as int));
        }
        i += 1;
    }
    proof {
        lemma_first_uri_step(s, 0, n as int);
    }
    None
}

/// The decision made after one probe of an already-possibly-running
/// service.
#[derive(Debug)]
pub enum StartDecision {
    /// The probe found a running instance at this URI; nothing is spawned.
    AlreadyRunning(String),
    /// No instance answers; the service must be spawned.
    SpawnNeeded,
}

pub ghost enum StartDecisionView {
    AlreadyRunning(Seq<char>),
    SpawnNeeded,
}

impl View for StartDecision {
    type V = StartDecisionView;

    open spec fn view(&self) -> StartDecisionView {
        match self {
            StartDecision::AlreadyRunning(u) => StartDecisionView::AlreadyRunning(u@),
            StartDecision::SpawnNeeded => StartDecisionView::SpawnNeeded,
        }
    }
}

/// What the first probe decides: a reachable service is used as is, never
/// started again.
pub open spec fn start_decision(probe: Option<Seq<char>>) -> StartDecisionView {
    match probe {
        Some(u) => StartDecisionView::AlreadyRunning(u),
        None => StartDecisionView::SpawnNeeded,
    }
}

/// Decide from a probe result whether the service must be spawned.
pub fn initial_probe_decision(probe: Option<String>) -> (r: StartDecision)
    ensures
        r@ == start_decision(match probe {
            Some(u) => Some(u@),
            None => None,
        }),
{
    match probe {
        Some(u) => StartDecision::AlreadyRunning(u),
        None => StartDecision::SpawnNeeded,
    }
}

/// A reachable service makes `ensureStarted` idempotent: every probe that
/// answers with a URI yields that URI and never a spawn, so two calls in
/// sequence return the same URI and spawn nothing.
pub proof fn lemma_start_idempotent(u: Seq<char>)
    ensures
        start_decision(Some(u)) == StartDecisionView::AlreadyRunning(u),
        start_decision(Some(u)) != StartDecisionView::SpawnNeeded,
{
}

/// Number of probe attempts after a spawn before giving up.
pub const START_ATTEMPTS: u8 = 10;

/// What one poll step yields.
#[derive(Debug)]
pub enum PollOutcome {
    /// The service answered with its URI.
    Ready(String),
    /// No answer yet; sleep briefly and probe again.
    RetryAfterDelay,
    /// All attempts exhausted; the service did not come up.
    GiveUp,
}

/// The bounded probe loop run after spawning the service: a fixed number
/// of attempts, never an unbounded wait.
#[derive(Debug)]
pub struct StartupPoll {
    pub attempts_remaining: u8,
}

impl StartupPoll {
    /// A fresh poll with the full attempt budget.
    pub fn new() -> (r: StartupPoll)
        ensures
            r.attempts_remaining == START_ATTEMPTS,
    {
        StartupPoll { attempts_remaining: START_ATTEMPTS }
    }

    /// Account one probe. A URI ends the poll at once; otherwise one
    /// attempt is spent, and the poll gives up when the budget is gone.
    pub fn on_probe(&mut self, probe: Option<String>) -> (r: PollOutcome)
        ensures
            match probe {
                Some(u) => {
                    &&& r matches PollOutcome::Ready(v) && v == u
                    &&& final(self).attempts_remaining == old(self).attempts_remaining
                },
                None => if old(self).attempts_remaining > 1 {
                    &&& r is RetryAfterDelay
                    &&& final(self).attempts_remaining == old(self).attempts_remaining - 1
                } else {
                    &&& r is GiveUp
                    &&& final(self).attempts_remaining == 0
                },
            },
    {
        match probe {
            Some(u) => PollOutcome::Ready(u),
            None => {
                if self.attempts_remaining > 1 {
                    self.attempts_remaining = self.attempts_remaining - 1;
                    PollOutcome::RetryAfterDelay
                } else {
                    self.attempts_remaining = 0;
                    PollOutcome::GiveUp
                }
            },
        }
    }
}

} // verus!

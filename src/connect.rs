//! Opening the named-pipe transport: which open failures are retried, and the
//! state of a connection attempt that is driven by a timer.
use vstd::prelude::*;

verus! {

/// Pause between two open attempts, in milliseconds.
pub const RETRY_INTERVAL_MS: u64 = 50;

/// The outcome of one attempt to open the pipe.
#[derive(Debug, Clone, Copy, PartialEq, Eq, Structural)]
pub enum OpenOutcome {
    Connected,
    /// The pipe exists but every server instance is busy.
    Busy,
    /// No pipe of that name exists yet.
    NotFound,
    /// Any other failure.
    Failed,
}

/// What to do after an attempt.
#[derive(Debug, Clone, Copy, PartialEq, Eq, Structural)]
pub enum OpenDecision {
    /// The handle is connected: hand it to the relay.
    Done,
    /// Wait `RETRY_INTERVAL_MS` and try again.
    Retry,
    /// Give up with the open error.
    Fail,
}

pub open spec fn open_error_class(raw_os_error: Option<i32>, not_found: bool) -> OpenOutcome {
    if raw_os_error == Some(231i32) {
        OpenOutcome::Busy
    } else if not_found {
        OpenOutcome::NotFound
    } else {
        OpenOutcome::Failed
    }
}

/// Busy is always transient; not-found is transient only when polling.
pub open spec fn open_decision(poll: bool, outcome: OpenOutcome) -> OpenDecision {
    match outcome {
        OpenOutcome::Connected => OpenDecision::Done,
        OpenOutcome::Busy => OpenDecision::Retry,
        OpenOutcome::NotFound => if poll {
            OpenDecision::Retry
        } else {
            OpenDecision::Fail
        },
        OpenOutcome::Failed => OpenDecision::Fail,
    }
}

/// Relies on windows_sys's `ERROR_PIPE_BUSY`, the OS error code of a pipe whose
/// instances are all busy (231).
#[verifier::external_body]
fn pipe_busy_code() -> (r: i32)
    ensures
        r == 231i32,
{
    windows_sys::Win32::Foundation::ERROR_PIPE_BUSY as i32
}

/// Classifies a failed open from its raw OS error code and whether its kind is
/// "not found". The busy code wins over the kind.
pub fn classify_open_error(raw_os_error: Option<i32>, not_found: bool) -> (r: OpenOutcome)
    ensures
        r == open_error_class(raw_os_error, not_found),
{
    let busy = pipe_busy_code();
    match raw_os_error {
        Some(code) if code == busy => OpenOutcome::Busy,
        _ => if not_found {
            OpenOutcome::NotFound
        } else {
            OpenOutcome::Failed
        },
    }
}

/// Decides what follows an open attempt.
pub fn decide_open(poll: bool, outcome: OpenOutcome) -> (r: OpenDecision)
    ensures
        r == open_decision(poll, outcome),
{
    match outcome {
        OpenOutcome::Connected => OpenDecision::Done,
        OpenOutcome::Busy => OpenDecision::Retry,
        OpenOutcome::NotFound => if poll {
            OpenDecision::Retry
        } else {
            OpenDecision::Fail
        },
        OpenOutcome::Failed => OpenDecision::Fail,
    }
}

#[derive(Debug, Clone, Copy, PartialEq, Eq, Structural)]
pub enum ConnectPhase {
    Opening,
    Connected,
    Failed,
}

/// A connection attempt in progress: the next attempt is due while `Opening`.
/// `attempts` counts the attempts made, and stays at `u64::MAX` once there.
pub struct PipeConnector {
    pub poll: bool,
    pub attempts: u64,
    pub phase: ConnectPhase,
}

pub open spec fn phase_of(d: OpenDecision) -> ConnectPhase {
    match d {
        OpenDecision::Done => ConnectPhase::Connected,
        OpenDecision::Retry => ConnectPhase::Opening,
        OpenDecision::Fail => ConnectPhase::Failed,
    }
}

/// Number of attempts and final phase after the scripted outcomes, read up to
/// the first one that ends the attempt.
pub open spec fn run_script(poll: bool, s: Seq<OpenOutcome>) -> (nat, ConnectPhase)
    decreases s.len(),
{
    if s.len() == 0 {
        (0, ConnectPhase::Opening)
    } else {
        match open_decision(poll, s[0]) {
            OpenDecision::Retry => {
                let rest = run_script(poll, s.drop_first());
                (rest.0 + 1, rest.1)
            },
            d => (1, phase_of(d)),
        }
    }
}

impl PipeConnector {
    pub fn new(poll: bool) -> (r: PipeConnector)
        ensures
            r.poll == poll,
            r.attempts == 0,
            r.phase == ConnectPhase::Opening,
    {
        PipeConnector { poll, attempts: 0, phase: ConnectPhase::Opening }
    }

    /// Records the outcome of the attempt just made and says what follows.
    pub fn on_outcome(&mut self, outcome: OpenOutcome) -> (r: OpenDecision)
        requires
            old(self).phase == ConnectPhase::Opening,
        ensures
            r == open_decision(old(self).poll, outcome),
            final(self).poll == old(self).poll,
            final(self).attempts == if old(self).attempts < u64::MAX {
                old(self).attempts + 1
            } else {
                old(self).attempts as int
            },
            final(self).phase == phase_of(r),
            *final(self) == after_outcome(*old(self), outcome),
    {
        let d = decide_open(self.poll, outcome);
        if self.attempts < u64::MAX {
            self.attempts = self.attempts + 1;
        }
        self.phase = match d {
            OpenDecision::Done => ConnectPhase::Connected,
            OpenDecision::Retry => ConnectPhase::Opening,
            OpenDecision::Fail => ConnectPhase::Failed,
        };
        d
    }
}

/// A connector as `new` makes it.
pub open spec fn fresh_connector(poll: bool) -> PipeConnector {
    PipeConnector { poll, attempts: 0, phase: ConnectPhase::Opening }
}

/// The connector once `on_outcome` has recorded `o`.
pub open spec fn after_outcome(c: PipeConnector, o: OpenOutcome) -> PipeConnector {
    PipeConnector {
        poll: c.poll,
        attempts: if c.attempts < u64::MAX {
            (c.attempts + 1) as u64
        } else {
            c.attempts
        },
        phase: phase_of(open_decision(c.poll, o)),
    }
}

/// The connector after a driver has made one attempt per outcome while it is
/// `Opening`: outcomes past the end of the attempt are never asked for.
pub open spec fn feed(c: PipeConnector, s: Seq<OpenOutcome>) -> PipeConnector
    decreases s.len(),
{
    if s.len() == 0 || c.phase != ConnectPhase::Opening {
        c
    } else {
        feed(after_outcome(c, s[0]), s.drop_first())
    }
}

/// Driving a connector through `on_outcome` gives the attempt count and the
/// phase that `run_script` gives for the same outcomes.
pub proof fn lemma_feed_matches_script(c: PipeConnector, s: Seq<OpenOutcome>)
    requires
        c.phase == ConnectPhase::Opening,
        c.attempts + run_script(c.poll, s).0 <= u64::MAX,
    ensures
        feed(c, s).poll == c.poll,
        feed(c, s).attempts == c.attempts + run_script(c.poll, s).0,
        feed(c, s).phase == run_script(c.poll, s).1,
    decreases s.len(),
{
    if s.len() > 0 {
        let c1 = after_outcome(c, s[0]);
        let rest = run_script(c.poll, s.drop_first());
        assert(c.attempts < u64::MAX);
        assert(c1.attempts == c.attempts + 1);
        assert(feed(c, s) == feed(c1, s.drop_first()));
        if c1.phase == ConnectPhase::Opening {
            assert(open_decision(c.poll, s[0]) == OpenDecision::Retry);
            assert(run_script(c.poll, s) == (rest.0 + 1, rest.1));
            lemma_feed_matches_script(c1, s.drop_first());
        } else {
            assert(feed(c1, s.drop_first()) == c1);
        }
    } else {
        assert(run_script(c.poll, s) == (0nat, ConnectPhase::Opening));
    }
}

/// A script of `k` busy outcomes followed by one more outcome.
pub open spec fn busy_then(k: nat, last: OpenOutcome) -> Seq<OpenOutcome> {
    Seq::new(k, |i: int| OpenOutcome::Busy).push(last)
}

proof fn lemma_busy_script(poll: bool, k: nat, rest: Seq<OpenOutcome>)
    ensures
        run_script(poll, busy_then(k, OpenOutcome::Connected) + rest) == (
            k + 1,
            ConnectPhase::Connected,
        ),
    decreases k,
{
    let s = busy_then(k, OpenOutcome::Connected) + rest;
    if k > 0 {
        lemma_busy_script(poll, (k - 1) as nat, rest);
        assert(s[0] == OpenOutcome::Busy);
        assert(s.drop_first() =~= busy_then((k - 1) as nat, OpenOutcome::Connected) + rest);
    } else {
        assert(s[0] == OpenOutcome::Connected);
    }
}

/// A pipe that is busy for `k` attempts and then accepts is connected after
/// exactly `k + 1` attempts, in either polling mode, and no attempt follows.
pub proof fn lemma_busy_then_connected(poll: bool, k: nat, rest: Seq<OpenOutcome>)
    requires
        k < u64::MAX,
    ensures
        feed(fresh_connector(poll), busy_then(k, OpenOutcome::Connected) + rest).attempts == k + 1,
        feed(fresh_connector(poll), busy_then(k, OpenOutcome::Connected) + rest).phase
            == ConnectPhase::Connected,
{
    lemma_busy_script(poll, k, rest);
    lemma_feed_matches_script(fresh_connector(poll), busy_then(k, OpenOutcome::Connected) + rest);
}

/// Outcomes that are retried under the given mode.
pub open spec fn all_transient(poll: bool, s: Seq<OpenOutcome>) -> bool {
    forall|i: int| 0 <= i < s.len() ==> open_decision(poll, #[trigger] s[i]) == OpenDecision::Retry
}

proof fn lemma_transient_script(s: Seq<OpenOutcome>, last: OpenOutcome, rest: Seq<OpenOutcome>)
    requires
        all_transient(true, s),
        open_decision(true, last) != OpenDecision::Retry,
    ensures
        run_script(true, s.push(last) + rest) == (s.len() + 1, phase_of(open_decision(true, last))),
    decreases s.len(),
{
    let t = s.push(last) + rest;
    if s.len() > 0 {
        lemma_transient_script(s.drop_first(), last, rest);
        assert(t[0] == s[0]);
        assert(open_decision(true, s[0]) == OpenDecision::Retry);
        assert(t.drop_first() =~= s.drop_first().push(last) + rest);
    } else {
        assert(t[0] == last);
    }
}

/// Without polling, a missing pipe ends the attempt at once, as a failure,
/// after one attempt. With polling, missing and busy pipes are both waited
/// out: the attempt ends with the first outcome that is neither (connected, or
/// another error), after one attempt per outcome, and no attempt follows.
pub proof fn lemma_poll_vs_strict(s: Seq<OpenOutcome>, last: OpenOutcome, rest: Seq<OpenOutcome>)
    requires
        all_transient(true, s),
        last == OpenOutcome::Connected || last == OpenOutcome::Failed,
        s.len() < u64::MAX,
    ensures
        feed(fresh_connector(false), seq![OpenOutcome::NotFound] + rest).attempts == 1,
        feed(fresh_connector(false), seq![OpenOutcome::NotFound] + rest).phase
            == ConnectPhase::Failed,
        feed(fresh_connector(true), s.push(last) + rest).attempts == s.len() + 1,
        feed(fresh_connector(true), s.push(last) + rest).phase == if last
            == OpenOutcome::Connected {
            ConnectPhase::Connected
        } else {
            ConnectPhase::Failed
        },
{
    let strict = seq![OpenOutcome::NotFound] + rest;
    assert(strict[0] == OpenOutcome::NotFound);
    lemma_feed_matches_script(fresh_connector(false), strict);
    lemma_transient_script(s, last, rest);
    lemma_feed_matches_script(fresh_connector(true), s.push(last) + rest);
}

} // verus!

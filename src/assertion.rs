//! The assertion context: the session that collects the failures of its
//! instances and hands them back, in order, when the session ends.
use crate::instance::Instance;
use crate::trace::capture_trace;
use backtrace::BacktraceFrame;
use vstd::prelude::*;

verus! {

/// One recorded failure: its message and the trimmed trace of where it occurred.
pub struct FailResult {
    pub log: String,
    pub bt: Vec<BacktraceFrame>,
}

/// Per-instance settings. All are off by default.
#[derive(Clone, Copy)]
pub struct InstanceConfig {
    /// Inverts the pass/fail decision of each assertion.
    pub negation: bool,
    /// A failure is handed back to the caller at once instead of being deferred.
    pub panic_immediately: bool,
    /// The trace keeps every frame outside the library, not only the caller's.
    pub backtrace: bool,
}

/// The payload of the fault that ends a failing session: it marks the test
/// as failed once every failure has been reported.
pub struct IgnorePanic();

/// A session of assertions. Its view is the messages of the recorded
/// failures, in the order in which they occurred.
pub struct Assertion {
    failures: Vec<FailResult>,
}

/// What a session hands back when it ends.
pub struct ScopeExit {
    /// The failures to report, in the order in which they were recorded.
    pub reports: Vec<FailResult>,
    /// Whether the sentinel fault (`IgnorePanic`) is to be raised after the reports.
    pub raise_sentinel: bool,
}

/// The messages of a sequence of failures.
pub open spec fn logs_of(s: Seq<FailResult>) -> Seq<Seq<char>> {
    s.map_values(|f: FailResult| f.log@)
}

impl View for Assertion {
    type V = Seq<Seq<char>>;

    closed spec fn view(&self) -> Seq<Seq<char>> {
        logs_of(self.failures@)
    }
}

/// The default settings: no negation, deferred failures, minimal trace.
pub open spec fn default_config() -> InstanceConfig {
    InstanceConfig { negation: false, panic_immediately: false, backtrace: false }
}

/// An outcome is reported when the assertion failed and is not negated, or
/// held and is negated.
pub open spec fn reported(config: InstanceConfig, ok: bool) -> bool {
    ok == config.negation
}

/// The failures that one pass/fail outcome gives: the positive message where
/// a plain assertion failed, the negated one where a negated assertion held.
pub open spec fn outcome(
    config: InstanceConfig,
    ok: bool,
    log: Seq<char>,
    nlog: Seq<char>,
) -> Seq<Seq<char>> {
    if reported(config, ok) {
        seq![
            if config.negation {
                nlog
            } else {
                log
            },
        ]
    } else {
        seq![]
    }
}

/// How an assertion with the failures `pending` (in order) leaves the session:
/// deferred, they are appended and `Ok` comes back; in immediate mode the
/// session is left as it was and the first one comes back as `Err`.
pub open spec fn settles(
    config: InstanceConfig,
    before: Seq<Seq<char>>,
    after: Seq<Seq<char>>,
    pending: Seq<Seq<char>>,
    r: Result<(), String>,
) -> bool {
    if config.panic_immediately {
        &&& after == before
        &&& if pending.len() == 0 {
            r is Ok
        } else {
            r is Err && r->Err_0@ == pending[0]
        }
    } else {
        after == before + pending && r is Ok
    }
}

/// Whether a session that ends with `logs` recorded raises the sentinel fault.
pub open spec fn raises_sentinel(logs: Seq<Seq<char>>, unwinding: bool) -> bool {
    logs.len() > 0 && !unwinding
}

/// The decision of the outcome handler: whether `ok` is to be reported.
pub fn reports(config: InstanceConfig, ok: bool) -> (r: bool)
    ensures
        r == reported(config, ok),
{
    ok == config.negation
}

/// A new session with no failure.
pub fn new() -> (r: Assertion)
    ensures
        r@ == Seq::<Seq<char>>::empty(),
{
    Assertion { failures: Vec::new() }
}

impl Assertion {
    /// The number of frames in the trace of the last recorded failure.
    pub closed spec fn last_trace_len(&self) -> nat {
        self.failures@.last().bt@.len()
    }

    /// Wraps `actual` in an instance with the default settings.
    pub fn that<'a, A>(&'a mut self, actual: A) -> (r: Instance<'a, A>)
        ensures
            *r.ctx == *old(self),
            *final(self) == *final(r.ctx),
            r.actual == actual,
            r.config == default_config(),
    {
        Instance {
            ctx: self,
            actual,
            config: InstanceConfig { negation: false, panic_immediately: false, backtrace: false },
        }
    }

    /// Records one failure with message `log`. In immediate mode the message
    /// comes back as `Err` and nothing is recorded; otherwise the failure is
    /// appended with its trace, which has at most one frame unless the full
    /// trace was asked for.
    pub fn fail(&mut self, config: InstanceConfig, log: String) -> (r: Result<(), String>)
        ensures
            settles(config, old(self)@, final(self)@, seq![log@], r),
            !config.panic_immediately ==> final(self).last_trace_len() <= 1
                || config.backtrace,
    {
        if config.panic_immediately {
            return Err(log);
        }
        let bt = capture_trace(config.backtrace);
        let ghost before = self.failures@;
        let ghost msg = log@;
        self.failures.push(FailResult { log, bt });
        assert(logs_of(self.failures@) =~= logs_of(before) + seq![msg]);
        Ok(())
    }

    /// Records the failure that `ok` gives under `config`, if any.
    pub fn handle_execution(
        &mut self,
        config: InstanceConfig,
        ok: bool,
        log: String,
        nlog: String,
    ) -> (r: Result<(), String>)
        ensures
            settles(config, old(self)@, final(self)@, outcome(config, ok, log@, nlog@), r),
    {
        if reports(config, ok) {
            if config.negation {
                self.fail(config, nlog)
            } else {
                self.fail(config, log)
            }
        } else {
            assert(old(self)@ + seq![] =~= old(self)@);
            Ok(())
        }
    }

    /// The number of recorded failures.
    pub fn failure_count(&self) -> (r: usize)
        ensures
            r == self@.len(),
    {
        self.failures.len()
    }

    /// The messages of the recorded failures, in order.
    pub fn logs(&self) -> (r: Vec<String>)
        ensures
            r@.map_values(|s: String| s@) == self@,
    {
        let mut out: Vec<String> = Vec::new();
        let mut i: usize = 0;
        while i < self.failures.len()
            invariant
                0 <= i <= self.failures@.len(),
                out@.map_values(|s: String| s@) =~= self@.subrange(0, i as int),
            decreases self.failures@.len() - i,
        {
            let ghost prev = out@;
            out.push(self.failures[i].log.clone());
            assert(out@.map_values(|s: String| s@) =~= prev.map_values(|s: String| s@).push(
                self@[i as int],
            ));
            i = i + 1;
        }
        assert(self@.subrange(0, self@.len() as int) =~= self@);
        out
    }

    /// Ends the session: hands back every recorded failure in order, leaves
    /// the session empty, and says whether the sentinel fault is due, which
    /// is when something was recorded and the thread is not already unwinding.
    pub fn finish(&mut self, unwinding: bool) -> (r: ScopeExit)
        ensures
            final(self)@ == Seq::<Seq<char>>::empty(),
            logs_of(r.reports@) == old(self)@,
            r.raise_sentinel == raises_sentinel(old(self)@, unwinding),
    {
        let reports = self.failures.split_off(0);
        assert(reports@ =~= old(self).failures@);
        assert(logs_of(self.failures@) =~= Seq::<Seq<char>>::empty());
        let raise_sentinel = reports.len() > 0 && !unwinding;
        ScopeExit { reports, raise_sentinel }
    }
}

} // verus!

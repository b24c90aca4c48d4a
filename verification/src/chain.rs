//! The EventChain orchestrator: an ordered list of events wrapped by
//! middleware, executed under a fault-tolerance mode.
//!
//! Events execute FIFO.  Middleware wraps in LIFO order: the last appended
//! middleware is the outermost wrapper and runs first on entry.  The whole
//! execution is specified by one fold, `chain_model`, over the per-event
//! wrapped step `run_wrapped`; the chain's `execute` is proved to return
//! exactly that fold's verdict, and the fault-tolerance laws (what Strict
//! stops, what Lenient records, what BestEffort forgives) are theorems about
//! the fold.

use vstd::prelude::*;
use crate::context::{ContextValue, EventContext};
use crate::event_result::{
    cap_failures,
    ChainResult,
    ChainStatus,
    EventFailure,
    EventResult,
    FailureModel,
    OutcomeModel,
    MAX_FAILURES,
};
use crate::middleware::MiddlewareRef;

verus! {

/// Maximum number of events in a chain
pub const MAX_EVENTS: usize = 16;

/// Maximum number of middleware in a chain
pub const MAX_MIDDLEWARE: usize = 8;

/// Fault tolerance mode for event chains
#[derive(Clone, Copy, Debug, PartialEq, Eq, Structural)]
pub enum FaultToleranceMode {
    /// Stop on any failure
    Strict,
    /// Continue on event failures, collect for review
    Lenient,
    /// Continue on event failures, stop on middleware failures
    BestEffort,
}

impl Default for FaultToleranceMode {
    fn default() -> (r: Self)
        ensures
            r == FaultToleranceMode::Strict,
    {
        FaultToleranceMode::Strict
    }
}

/// Trait for chainable events.
///
/// An event is a named unit whose execution reads and writes the context and
/// yields an outcome.  `spec_step` is the event's abstract semantics; each
/// implementation proves its `execute` against it.
pub trait ChainableEvent: Sized {
    /// The event's static name, abstractly.
    spec fn spec_name(&self) -> Seq<char>;

    /// What executing the event does: the new context and the outcome.
    spec fn spec_step(&self, m: Map<Seq<char>, ContextValue>) -> (
        Map<Seq<char>, ContextValue>,
        OutcomeModel,
    );

    /// Execute the event with the given context
    fn execute(&self, context: &mut EventContext) -> (r: EventResult<()>)
        requires
            old(context).wf(),
        ensures
            final(context).wf(),
            final(context)@ == self.spec_step(old(context)@).0,
            r.model() == self.spec_step(old(context)@).1,
    ;

    /// Get the name of this event (for logging/debugging)
    fn name(&self) -> (n: &'static str)
        ensures
            n@ == self.spec_name(),
    ;
}

/// One event run under the middleware layers `mws[mws.len() - 1 - k]`
/// inward (LIFO: the last appended middleware is the outermost).  Yields
/// the context after the run and the outcome.
pub open spec fn run_wrapped<E: ChainableEvent>(
    e: E,
    mws: Seq<MiddlewareRef>,
    k: int,
    m: Map<Seq<char>, ContextValue>,
) -> (Map<Seq<char>, ContextValue>, OutcomeModel)
    decreases mws.len() - k, 0nat, 0nat,
{
    if k < 0 || k >= mws.len() {
        e.spec_step(m)
    } else {
        let mw = mws[mws.len() - 1 - k];
        match mw.pre_check(e.spec_name(), m) {
            Some(msg) => (m, OutcomeModel::MiddlewareFailure(msg)),
            None => {
                if mw is Retry {
                    retry_fold(e, mws, k + 1, m, mw.tries())
                } else {
                    run_wrapped(e, mws, k + 1, m)
                }
            },
        }
    }
}

/// Up to `tries` runs of the inner pipeline, stopping at the first success;
/// the verdict of the last run stands.
pub open spec fn retry_fold<E: ChainableEvent>(
    e: E,
    mws: Seq<MiddlewareRef>,
    k: int,
    m: Map<Seq<char>, ContextValue>,
    tries: nat,
) -> (Map<Seq<char>, ContextValue>, OutcomeModel)
    decreases mws.len() - k, tries, 1nat,
{
    if tries == 0 {
        // a retry middleware always grants at least one try
        e.spec_step(m)
    } else {
        let step = run_wrapped(e, mws, k, m);
        if tries == 1 || step.1 is Success {
            step
        } else {
            retry_fold(e, mws, k, step.0, (tries - 1) as nat)
        }
    }
}

/// The abstract verdict of a whole chain run.
pub struct ChainModel {
    /// The context after the run
    pub ctx: Map<Seq<char>, ContextValue>,
    /// The status reported
    pub status: ChainStatus,
    /// The overall pass/fail flag
    pub success: bool,
    /// Every failure, in order, uncapped
    pub failures: Seq<FailureModel>,
}

/// The whole chain as a fold of wrapped steps under the fault-tolerance
/// mode: Strict stops at any failure, Lenient records and continues,
/// BestEffort continues past event failures but stops at middleware
/// failures.
pub open spec fn chain_model<E: ChainableEvent>(
    events: Seq<E>,
    mws: Seq<MiddlewareRef>,
    mode: FaultToleranceMode,
    m: Map<Seq<char>, ContextValue>,
) -> ChainModel
    decreases events.len(),
{
    if events.len() == 0 {
        ChainModel {
            ctx: m,
            status: ChainStatus::Completed,
            success: true,
            failures: Seq::empty(),
        }
    } else {
        let step = run_wrapped(events[0], mws, 0, m);
        match step.1 {
            OutcomeModel::Success => chain_model(events.skip(1), mws, mode, step.0),
            OutcomeModel::Failure(msg) => {
                let fm = FailureModel { name: events[0].spec_name(), msg, is_mw: false };
                if mode is Strict {
                    ChainModel {
                        ctx: step.0,
                        status: ChainStatus::Failed,
                        success: false,
                        failures: seq![fm],
                    }
                } else {
                    let rest = chain_model(events.skip(1), mws, mode, step.0);
                    ChainModel {
                        ctx: rest.ctx,
                        status: if rest.status is Failed {
                            ChainStatus::Failed
                        } else {
                            ChainStatus::CompletedWithWarnings
                        },
                        success: rest.success,
                        failures: seq![fm] + rest.failures,
                    }
                }
            },
            OutcomeModel::MiddlewareFailure(msg) => {
                let fm = FailureModel { name: events[0].spec_name(), msg, is_mw: true };
                if mode is Strict || mode is BestEffort {
                    ChainModel {
                        ctx: step.0,
                        status: ChainStatus::Failed,
                        success: false,
                        failures: seq![fm],
                    }
                } else {
                    let rest = chain_model(events.skip(1), mws, mode, step.0);
                    ChainModel {
                        ctx: rest.ctx,
                        status: if rest.status is Failed {
                            ChainStatus::Failed
                        } else {
                            ChainStatus::CompletedWithWarnings
                        },
                        success: rest.success,
                        failures: seq![fm] + rest.failures,
                    }
                }
            },
        }
    }
}

/// How a prefix with `had` recorded failures and a remainder's status make
/// the whole run's status.
pub open spec fn combine_status(had: bool, st: ChainStatus) -> ChainStatus {
    if st is Failed {
        ChainStatus::Failed
    } else if had || st is CompletedWithWarnings {
        ChainStatus::CompletedWithWarnings
    } else {
        ChainStatus::Completed
    }
}

/// Capping distributes over appending one record.
proof fn lemma_cap_push(s: Seq<FailureModel>, x: FailureModel)
    ensures
        cap_failures(s.push(x)) == (if s.len() < MAX_FAILURES {
            cap_failures(s).push(x)
        } else {
            cap_failures(s)
        }),
{
    if s.len() < MAX_FAILURES {
        assert(cap_failures(s.push(x)) =~= cap_failures(s).push(x));
    } else {
        assert(cap_failures(s.push(x)) =~= cap_failures(s));
    }
}

/// Event chain orchestrator.
///
/// Holds a bounded pipeline of events and middleware and a fault-tolerance
/// mode.  `execute` runs the pipeline and returns exactly the verdict of
/// `chain_model`.
pub struct EventChain<E: ChainableEvent> {
    events: Vec<E>,
    middleware: Vec<MiddlewareRef>,
    fault_tolerance: FaultToleranceMode,
}

impl<E: ChainableEvent> EventChain<E> {
    /// The events of this chain, in execution order.
    pub closed spec fn events_model(&self) -> Seq<E> {
        self.events@
    }

    /// The middleware of this chain, in the order appended.
    pub closed spec fn middleware_model(&self) -> Seq<MiddlewareRef> {
        self.middleware@
    }

    /// The chain's fault-tolerance mode.
    pub closed spec fn mode(&self) -> FaultToleranceMode {
        self.fault_tolerance
    }

    /// Create a new empty event chain
    pub fn new() -> (r: EventChain<E>)
        ensures
            r.events_model() == Seq::<E>::empty(),
            r.middleware_model() == Seq::<MiddlewareRef>::empty(),
            r.mode() == FaultToleranceMode::Strict,
    {
        EventChain {
            events: Vec::new(),
            middleware: Vec::new(),
            fault_tolerance: FaultToleranceMode::Strict,
        }
    }

    /// Set the fault tolerance mode
    pub fn with_fault_tolerance(self, mode: FaultToleranceMode) -> (r: EventChain<E>)
        ensures
            r.events_model() == self.events_model(),
            r.middleware_model() == self.middleware_model(),
            r.mode() == mode,
    {
        EventChain { fault_tolerance: mode, ..self }
    }

    /// Add an event to the chain.
    ///
    /// Events execute in FIFO order (first added = first executed).  Past
    /// the capacity the event is dropped.
    pub fn event(self, event: E) -> (r: EventChain<E>)
        ensures
            r.events_model() == (if self.events_model().len() < MAX_EVENTS {
                self.events_model().push(event)
            } else {
                self.events_model()
            }),
            r.middleware_model() == self.middleware_model(),
            r.mode() == self.mode(),
    {
        let mut c = self;
        if c.events.len() < MAX_EVENTS {
            c.events.push(event);
        }
        c
    }

    /// Add middleware to the chain.
    ///
    /// Middleware executes in LIFO order (last added = first executed).
    /// Past the capacity the middleware is dropped.
    pub fn middleware(self, mw: MiddlewareRef) -> (r: EventChain<E>)
        ensures
            r.middleware_model() == (if self.middleware_model().len() < MAX_MIDDLEWARE {
                self.middleware_model().push(mw)
            } else {
                self.middleware_model()
            }),
            r.events_model() == self.events_model(),
            r.mode() == self.mode(),
    {
        let mut c = self;
        if c.middleware.len() < MAX_MIDDLEWARE {
            c.middleware.push(mw);
        }
        c
    }

    /// Execute a single event with the middleware pipeline.
    fn execute_with_middleware(&self, event: &E, context: &mut EventContext) -> (r: EventResult<
        (),
    >)
        requires
            old(context).wf(),
        ensures
            final(context).wf(),
            final(context)@ == run_wrapped(*event, self.middleware_model(), 0, old(context)@).0,
            r.model() == run_wrapped(*event, self.middleware_model(), 0, old(context)@).1,
    {
        self.execute_middleware_recursive(0, event, context)
    }

    /// Recursively execute the middleware stack, outermost layer first.
    fn execute_middleware_recursive(
        &self,
        index: usize,
        event: &E,
        context: &mut EventContext,
    ) -> (r: EventResult<()>)
        requires
            old(context).wf(),
            index <= self.middleware_model().len(),
        ensures
            final(context).wf(),
            final(context)@ == run_wrapped(
                *event,
                self.middleware_model(),
                index as int,
                old(context)@,
            ).0,
            r.model() == run_wrapped(
                *event,
                self.middleware_model(),
                index as int,
                old(context)@,
            ).1,
        decreases self.middleware_model().len() - index,
    {
        let ghost mws = self.middleware_model();
        if index >= self.middleware.len() {
            return event.execute(context);
        }
        let mw_idx = self.middleware.len() - 1 - index;
        match &self.middleware[mw_idx] {
            MiddlewareRef::Permission(p) => {
                let ring_u32 = match context.get_u32("ring") {
                    Some(v) => v,
                    None => 0,
                };
                proof {
                    assert(ring_u32 & 0xFF < 256) by (bit_vector);
                }
                let ring = (ring_u32 & 0xFF) as u8;
                if ring > p.required_ring {
                    return EventResult::middleware_failure("insufficient privileges");
                }
                self.execute_middleware_recursive(index + 1, event, context)
            },
            MiddlewareRef::Dependency(_) => {
                let is_input_init = crate::context::str_eq(event.name(), "synaptics_init")
                    || crate::context::str_eq(event.name(), "ps2_mouse_init");
                if is_input_init && context.get_u32("scr_width").is_none() {
                    return EventResult::middleware_failure("Screen dimensions not set");
                }
                self.execute_middleware_recursive(index + 1, event, context)
            },
            MiddlewareRef::Retry(rm) => {
                let max = rm.max_retries;
                let next_index = index + 1;
                let ghost m0 = context@;
                let ghost total: nat = max as nat + 1;
                let ghost target = retry_fold(*event, mws, next_index as int, m0, total);
                proof {
                    assert(run_wrapped(*event, mws, index as int, m0) == target);
                }
                let mut last = self.execute_middleware_recursive(next_index, event, context);
                let mut done: u8 = 0;
                proof {
                    assert(retry_fold(*event, mws, next_index as int, m0, total) == (if total == 1
                        || run_wrapped(*event, mws, next_index as int, m0).1 is Success {
                        run_wrapped(*event, mws, next_index as int, m0)
                    } else {
                        retry_fold(
                            *event,
                            mws,
                            next_index as int,
                            run_wrapped(*event, mws, next_index as int, m0).0,
                            (total - 1) as nat,
                        )
                    }));
                }
                while done < max
                    invariant
                        context.wf(),
                        done <= max,
                        next_index == index + 1,
                        next_index <= mws.len(),
                        mws == self.middleware_model(),
                        m0 == old(context)@,
                        target == retry_fold(*event, mws, next_index as int, m0, total),
                        target == run_wrapped(*event, mws, index as int, m0),
                        target == (if last.model() is Success || done == max {
                            (context@, last.model())
                        } else {
                            retry_fold(*event, mws, next_index as int, context@, (max
                                - done) as nat)
                        }),
                    decreases max - done,
                {
                    if last.is_success() {
                        proof {
                            assert(run_wrapped(*event, mws, index as int, m0) == (
                                context@,
                                last.model(),
                            ));
                        }
                        return last;
                    }
                    let ghost pre_try = context@;
                    let ghost left: nat = (max - done) as nat;
                    last = self.execute_middleware_recursive(next_index, event, context);
                    proof {
                        assert(retry_fold(*event, mws, next_index as int, pre_try, left) == (if left
                            == 1 || run_wrapped(*event, mws, next_index as int, pre_try).1
                            is Success {
                            run_wrapped(*event, mws, next_index as int, pre_try)
                        } else {
                            retry_fold(
                                *event,
                                mws,
                                next_index as int,
                                run_wrapped(*event, mws, next_index as int, pre_try).0,
                                (left - 1) as nat,
                            )
                        }));
                    }
                    done += 1;
                }
                proof {
                    assert(run_wrapped(*event, mws, index as int, m0) == (
                        context@,
                        last.model(),
                    ));
                }
                last
            },
            _ => {
                // logging, audit, timing, focus policy: pass through
                self.execute_middleware_recursive(index + 1, event, context)
            },
        }
    }

    /// Execute the event chain.
    ///
    /// Runs every event in order through the middleware pipeline, applying
    /// the fault-tolerance policy, and returns as its result exactly
    /// `chain_model` of this chain on the starting context.
    pub fn execute(&self, context: &mut EventContext) -> (r: ChainResult)
        requires
            old(context).wf(),
        ensures
            final(context).wf(),
            ({
                let model = chain_model(
                    self.events_model(),
                    self.middleware_model(),
                    self.mode(),
                    old(context)@,
                );
                &&& final(context)@ == model.ctx
                &&& r.status == model.status
                &&& r.success == model.success
                &&& r.failures_model() == cap_failures(model.failures)
                &&& r.wf()
            }),
    {
        let ghost mws = self.middleware_model();
        let ghost mode = self.mode();
        let ghost full = chain_model(self.events_model(), mws, mode, old(context)@);
        let mut result = ChainResult::success();
        let mut had_failures = false;
        let ghost mut gacc: Seq<FailureModel> = Seq::empty();

        proof {
            assert(self.events_model().skip(0) =~= self.events_model());
            assert(gacc + full.failures =~= full.failures);
        }
        let n = self.events.len();
        let mut i: usize = 0;
        while i < n
            invariant
                context.wf(),
                i <= n,
                n == self.events_model().len(),
                mws == self.middleware_model(),
                mode == self.mode(),
                full == chain_model(self.events_model(), mws, mode, old(context)@),
                result.wf(),
                result.success == true,
                result.status == ChainStatus::Completed,
                result.failures_model() == cap_failures(gacc),
                had_failures == (gacc.len() > 0),
                ({
                    let sub = chain_model(self.events_model().skip(i as int), mws, mode, context@);
                    &&& full.ctx == sub.ctx
                    &&& full.success == sub.success
                    &&& full.status == combine_status(had_failures, sub.status)
                    &&& full.failures == gacc + sub.failures
                }),
            decreases n - i,
        {
            let ghost pre = context@;
            let ghost evs = self.events_model().skip(i as int);
            proof {
                assert(evs[0] == self.events_model()[i as int]);
                assert(evs.skip(1) =~= self.events_model().skip(i as int + 1));
            }
            let event = &self.events[i];
            let event_result = self.execute_with_middleware(event, context);
            let ghost step = run_wrapped(evs[0], mws, 0, pre);
            let ghost sub = chain_model(evs, mws, mode, pre);
            proof {
                assert(*event == evs[0]);
                assert(context@ == step.0);
                assert(event_result.model() == step.1);
            }

            match event_result {
                EventResult::Success(_) => {
                    proof {
                        assert(sub == chain_model(evs.skip(1), mws, mode, step.0));
                    }
                },
                EventResult::Failure(msg) => {
                    had_failures = true;
                    let failure = EventFailure {
                        event_name: event.name(),
                        error: msg,
                        is_middleware_failure: false,
                    };
                    let ghost gacc0 = gacc;
                    proof {
                        assert(step.1 == OutcomeModel::Failure(msg@));
                        lemma_cap_push(gacc, failure.model());
                        gacc = gacc.push(failure.model());
                    }
                    result.add_failure(failure);
                    match self.fault_tolerance {
                        FaultToleranceMode::Strict => {
                            proof {
                                assert(sub.failures =~= seq![failure.model()]);
                                assert(gacc0 + sub.failures =~= gacc);
                            }
                            result.success = false;
                            result.status = ChainStatus::Failed;
                            return result;
                        },
                        FaultToleranceMode::Lenient => {},
                        FaultToleranceMode::BestEffort => {},
                    }
                    proof {
                        let rest = chain_model(evs.skip(1), mws, mode, step.0);
                        assert(sub.failures == seq![failure.model()] + rest.failures);
                        assert(gacc0 + sub.failures =~= gacc + rest.failures);
                    }
                },
                EventResult::MiddlewareFailure(msg) => {
                    had_failures = true;
                    let failure = EventFailure {
                        event_name: event.name(),
                        error: msg,
                        is_middleware_failure: true,
                    };
                    let ghost gacc0 = gacc;
                    proof {
                        assert(step.1 == OutcomeModel::MiddlewareFailure(msg@));
                        lemma_cap_push(gacc, failure.model());
                        gacc = gacc.push(failure.model());
                    }
                    result.add_failure(failure);
                    match self.fault_tolerance {
                        FaultToleranceMode::Strict => {
                            proof {
                                assert(sub.failures =~= seq![failure.model()]);
                                assert(gacc0 + sub.failures =~= gacc);
                            }
                            result.success = false;
                            result.status = ChainStatus::Failed;
                            return result;
                        },
                        FaultToleranceMode::Lenient => {},
                        FaultToleranceMode::BestEffort => {
                            proof {
                                assert(sub.failures =~= seq![failure.model()]);
                                assert(gacc0 + sub.failures =~= gacc);
                            }
                            result.success = false;
                            result.status = ChainStatus::Failed;
                            return result;
                        },
                    }
                    proof {
                        let rest = chain_model(evs.skip(1), mws, mode, step.0);
                        assert(sub.failures == seq![failure.model()] + rest.failures);
                        assert(gacc0 + sub.failures =~= gacc + rest.failures);
                    }
                },
            }
            i += 1;
        }

        proof {
            assert(self.events_model().skip(n as int) =~= Seq::<E>::empty());
            assert(gacc + Seq::<FailureModel>::empty() =~= gacc);
        }
        if had_failures {
            result.status = ChainStatus::CompletedWithWarnings;
        }
        result
    }
}

/// The context after the first `j` wrapped steps of a chain, each feeding
/// the next.
pub open spec fn ctx_prefix<E: ChainableEvent>(
    events: Seq<E>,
    mws: Seq<MiddlewareRef>,
    m: Map<Seq<char>, ContextValue>,
    j: int,
) -> Map<Seq<char>, ContextValue>
    decreases j,
{
    if j <= 0 {
        m
    } else {
        run_wrapped(events[j - 1], mws, 0, ctx_prefix(events, mws, m, j - 1)).0
    }
}

/// The failures of the first `j` wrapped steps, in order.
pub open spec fn failures_upto<E: ChainableEvent>(
    events: Seq<E>,
    mws: Seq<MiddlewareRef>,
    m: Map<Seq<char>, ContextValue>,
    j: int,
) -> Seq<FailureModel>
    decreases j,
{
    if j <= 0 {
        Seq::empty()
    } else {
        let prev = failures_upto(events, mws, m, j - 1);
        match run_wrapped(events[j - 1], mws, 0, ctx_prefix(events, mws, m, j - 1)).1 {
            OutcomeModel::Success => prev,
            OutcomeModel::Failure(msg) => prev.push(
                FailureModel { name: events[j - 1].spec_name(), msg, is_mw: false },
            ),
            OutcomeModel::MiddlewareFailure(msg) => prev.push(
                FailureModel { name: events[j - 1].spec_name(), msg, is_mw: true },
            ),
        }
    }
}

/// Dropping the first event shifts prefix contexts by one.
proof fn lemma_ctx_prefix_shift<E: ChainableEvent>(
    events: Seq<E>,
    mws: Seq<MiddlewareRef>,
    m: Map<Seq<char>, ContextValue>,
    j: int,
)
    requires
        events.len() > 0,
        0 <= j <= events.len() - 1,
    ensures
        ctx_prefix(events.skip(1), mws, run_wrapped(events[0], mws, 0, m).0, j) == ctx_prefix(
            events,
            mws,
            m,
            j + 1,
        ),
    decreases j,
{
    if j > 0 {
        lemma_ctx_prefix_shift(events, mws, m, j - 1);
        assert(events.skip(1)[j - 1] == events[j]);
    } else {
        assert(ctx_prefix(events, mws, m, 0) == m);
        assert(ctx_prefix(events, mws, m, 1) == run_wrapped(events[0], mws, 0, m).0);
    }
}

/// Dropping the first event shifts collected failures by one, when the
/// first step succeeds.
proof fn lemma_failures_upto_shift<E: ChainableEvent>(
    events: Seq<E>,
    mws: Seq<MiddlewareRef>,
    m: Map<Seq<char>, ContextValue>,
    j: int,
)
    requires
        events.len() > 0,
        0 <= j <= events.len() - 1,
        run_wrapped(events[0], mws, 0, m).1 is Success,
    ensures
        failures_upto(events.skip(1), mws, run_wrapped(events[0], mws, 0, m).0, j)
            == failures_upto(events, mws, m, j + 1),
    decreases j,
{
    if j > 0 {
        lemma_failures_upto_shift(events, mws, m, j - 1);
        lemma_ctx_prefix_shift(events, mws, m, j - 1);
        assert(events.skip(1)[j - 1] == events[j]);
    } else {
        assert(ctx_prefix(events, mws, m, 0) == m);
        assert(failures_upto(events, mws, m, 0) =~= Seq::<FailureModel>::empty());
        assert(failures_upto(events, mws, m, 1) =~= Seq::<FailureModel>::empty());
        assert(failures_upto(events.skip(1), mws, run_wrapped(events[0], mws, 0, m).0, 0)
            =~= Seq::<FailureModel>::empty());
    }
}

/// Strict fault tolerance stops at the first failure: when events `0..k`
/// succeed and event `k`'s wrapped step fails, the chain's verdict is
/// `Failed`, exactly events `0..=k` have run (the final context is the one
/// event `k` left), and the single recorded failure names event `k`.
pub proof fn lemma_chain_strict<E: ChainableEvent>(
    events: Seq<E>,
    mws: Seq<MiddlewareRef>,
    m: Map<Seq<char>, ContextValue>,
    k: int,
)
    requires
        0 <= k < events.len(),
        forall|j: int|
            0 <= j < k ==> (#[trigger] run_wrapped(
                events[j],
                mws,
                0,
                ctx_prefix(events, mws, m, j),
            )).1 is Success,
        run_wrapped(events[k], mws, 0, ctx_prefix(events, mws, m, k)).1.is_failure(),
    ensures
        ({
            let model = chain_model(events, mws, FaultToleranceMode::Strict, m);
            let stepk = run_wrapped(events[k], mws, 0, ctx_prefix(events, mws, m, k));
            &&& model.status == ChainStatus::Failed
            &&& model.success == false
            &&& model.ctx == stepk.0
            &&& model.failures.len() == 1
            &&& model.failures[0].name == events[k].spec_name()
            &&& model.failures[0].is_mw == (stepk.1 is MiddlewareFailure)
        }),
    decreases k,
{
    let step0 = run_wrapped(events[0], mws, 0, m);
    if k == 0 {
        assert(ctx_prefix(events, mws, m, 0) == m);
    } else {
        assert(run_wrapped(events[0], mws, 0, ctx_prefix(events, mws, m, 0)).1 is Success);
        assert(ctx_prefix(events, mws, m, 0) == m);
        let rest = events.skip(1);
        assert forall|j: int|
            0 <= j < k - 1 implies (#[trigger] run_wrapped(
            rest[j],
            mws,
            0,
            ctx_prefix(rest, mws, step0.0, j),
        )).1 is Success by {
            lemma_ctx_prefix_shift(events, mws, m, j);
            assert(rest[j] == events[j + 1]);
            assert(run_wrapped(events[j + 1], mws, 0, ctx_prefix(events, mws, m, j + 1)).1
                is Success);
        }
        lemma_ctx_prefix_shift(events, mws, m, k - 1);
        assert(rest[k - 1] == events[k]);
        lemma_chain_strict(rest, mws, step0.0, k - 1);
    }
}

/// BestEffort fault tolerance accumulates event failures: when no wrapped
/// step yields a middleware failure, every event runs, every event failure
/// is recorded in order, and the chain completes (with warnings when any
/// failure occurred).
pub proof fn lemma_chain_best_effort_accumulates<E: ChainableEvent>(
    events: Seq<E>,
    mws: Seq<MiddlewareRef>,
    m: Map<Seq<char>, ContextValue>,
)
    requires
        forall|j: int|
            0 <= j < events.len() ==> !((#[trigger] run_wrapped(
                events[j],
                mws,
                0,
                ctx_prefix(events, mws, m, j),
            )).1 is MiddlewareFailure),
    ensures
        ({
            let model = chain_model(events, mws, FaultToleranceMode::BestEffort, m);
            &&& model.success == true
            &&& model.ctx == ctx_prefix(events, mws, m, events.len() as int)
            &&& model.failures == failures_upto(events, mws, m, events.len() as int)
            &&& model.status == (if model.failures.len() == 0 {
                ChainStatus::Completed
            } else {
                ChainStatus::CompletedWithWarnings
            })
        }),
    decreases events.len(),
{
    if events.len() == 0 {
        assert(failures_upto(events, mws, m, 0) =~= Seq::<FailureModel>::empty());
    } else {
        let step0 = run_wrapped(events[0], mws, 0, m);
        assert(ctx_prefix(events, mws, m, 0) == m);
        assert(!(step0.1 is MiddlewareFailure));
        let rest = events.skip(1);
        assert forall|j: int|
            0 <= j < rest.len() implies !((#[trigger] run_wrapped(
            rest[j],
            mws,
            0,
            ctx_prefix(rest, mws, step0.0, j),
        )).1 is MiddlewareFailure) by {
            lemma_ctx_prefix_shift(events, mws, m, j);
            assert(rest[j] == events[j + 1]);
            assert(!(run_wrapped(events[j + 1], mws, 0, ctx_prefix(events, mws, m, j + 1)).1
                is MiddlewareFailure));
        }
        lemma_chain_best_effort_accumulates(rest, mws, step0.0);
        lemma_ctx_prefix_shift_all(events, mws, m);
        let model = chain_model(events, mws, FaultToleranceMode::BestEffort, m);
        let sub = chain_model(rest, mws, FaultToleranceMode::BestEffort, step0.0);
        match step0.1 {
            OutcomeModel::Success => {
                lemma_failures_upto_shift_all(events, mws, m);
            },
            OutcomeModel::Failure(msg) => {
                let fm = FailureModel { name: events[0].spec_name(), msg, is_mw: false };
                lemma_failures_upto_shift_all_failed(events, mws, m);
                assert(model.failures =~= failures_upto(events, mws, m, events.len() as int));
            },
            OutcomeModel::MiddlewareFailure(_) => {},
        }
    }
}

/// Dropping a succeeding or event-failing first step shifts the whole
/// prefix context to the end.
proof fn lemma_ctx_prefix_shift_all<E: ChainableEvent>(
    events: Seq<E>,
    mws: Seq<MiddlewareRef>,
    m: Map<Seq<char>, ContextValue>,
)
    requires
        events.len() > 0,
    ensures
        ctx_prefix(events.skip(1), mws, run_wrapped(events[0], mws, 0, m).0, events.len() - 1)
            == ctx_prefix(events, mws, m, events.len() as int),
{
    lemma_ctx_prefix_shift(events, mws, m, events.len() - 1);
}

/// Shift of the whole failure record past a succeeding first step.
proof fn lemma_failures_upto_shift_all<E: ChainableEvent>(
    events: Seq<E>,
    mws: Seq<MiddlewareRef>,
    m: Map<Seq<char>, ContextValue>,
)
    requires
        events.len() > 0,
        run_wrapped(events[0], mws, 0, m).1 is Success,
    ensures
        failures_upto(events.skip(1), mws, run_wrapped(events[0], mws, 0, m).0, events.len() - 1)
            == failures_upto(events, mws, m, events.len() as int),
{
    lemma_failures_upto_shift(events, mws, m, events.len() - 1);
}

/// Shift of the whole failure record past an event-failing first step: the
/// first step's failure leads the record.
proof fn lemma_failures_upto_shift_all_failed<E: ChainableEvent>(
    events: Seq<E>,
    mws: Seq<MiddlewareRef>,
    m: Map<Seq<char>, ContextValue>,
)
    requires
        events.len() > 0,
        run_wrapped(events[0], mws, 0, m).1 matches OutcomeModel::Failure(_),
    ensures
        ({
            let step0 = run_wrapped(events[0], mws, 0, m);
            let fm = FailureModel {
                name: events[0].spec_name(),
                msg: step0.1->Failure_0,
                is_mw: false,
            };
            seq![fm] + failures_upto(events.skip(1), mws, step0.0, events.len() - 1)
                == failures_upto(events, mws, m, events.len() as int)
        }),
{
    let step0 = run_wrapped(events[0], mws, 0, m);
    let fm = FailureModel { name: events[0].spec_name(), msg: step0.1->Failure_0, is_mw: false };
    lemma_failures_upto_shift_failed(events, mws, m, events.len() - 1);
}

/// Shift of a failure-record prefix past an event-failing first step.
proof fn lemma_failures_upto_shift_failed<E: ChainableEvent>(
    events: Seq<E>,
    mws: Seq<MiddlewareRef>,
    m: Map<Seq<char>, ContextValue>,
    j: int,
)
    requires
        events.len() > 0,
        0 <= j <= events.len() - 1,
        run_wrapped(events[0], mws, 0, m).1 matches OutcomeModel::Failure(_),
    ensures
        ({
            let step0 = run_wrapped(events[0], mws, 0, m);
            let fm = FailureModel {
                name: events[0].spec_name(),
                msg: step0.1->Failure_0,
                is_mw: false,
            };
            seq![fm] + failures_upto(events.skip(1), mws, step0.0, j) == failures_upto(
                events,
                mws,
                m,
                j + 1,
            )
        }),
    decreases j,
{
    let step0 = run_wrapped(events[0], mws, 0, m);
    let fm = FailureModel { name: events[0].spec_name(), msg: step0.1->Failure_0, is_mw: false };
    if j > 0 {
        lemma_failures_upto_shift_failed(events, mws, m, j - 1);
        lemma_ctx_prefix_shift(events, mws, m, j - 1);
        assert(events.skip(1)[j - 1] == events[j]);
        match run_wrapped(events[j], mws, 0, ctx_prefix(events, mws, m, j)).1 {
            OutcomeModel::Success => {},
            OutcomeModel::Failure(msg) => {
                let g = FailureModel { name: events[j].spec_name(), msg, is_mw: false };
                assert((seq![fm] + failures_upto(events.skip(1), mws, step0.0, j - 1)).push(g)
                    =~= seq![fm] + failures_upto(events.skip(1), mws, step0.0, j - 1).push(g));
            },
            OutcomeModel::MiddlewareFailure(msg) => {
                let g = FailureModel { name: events[j].spec_name(), msg, is_mw: true };
                assert((seq![fm] + failures_upto(events.skip(1), mws, step0.0, j - 1)).push(g)
                    =~= seq![fm] + failures_upto(events.skip(1), mws, step0.0, j - 1).push(g));
            },
        }
    } else {
        assert(ctx_prefix(events, mws, m, 0) == m);
        assert(failures_upto(events, mws, m, 0) =~= Seq::<FailureModel>::empty());
        assert(failures_upto(events, mws, m, 1) =~= seq![fm]);
        assert(seq![fm] + failures_upto(events.skip(1), mws, step0.0, 0) =~= seq![fm]);
    }
}

/// BestEffort fault tolerance stops at a middleware failure: when events
/// `0..k` yield no middleware failure and event `k`'s wrapped step does,
/// the chain fails exactly as Strict would, with the earlier event
/// failures still on record ahead of event `k`'s.
pub proof fn lemma_chain_best_effort_truncates<E: ChainableEvent>(
    events: Seq<E>,
    mws: Seq<MiddlewareRef>,
    m: Map<Seq<char>, ContextValue>,
    k: int,
)
    requires
        0 <= k < events.len(),
        forall|j: int|
            0 <= j < k ==> !((#[trigger] run_wrapped(
                events[j],
                mws,
                0,
                ctx_prefix(events, mws, m, j),
            )).1 is MiddlewareFailure),
        run_wrapped(events[k], mws, 0, ctx_prefix(events, mws, m, k)).1 is MiddlewareFailure,
    ensures
        ({
            let model = chain_model(events, mws, FaultToleranceMode::BestEffort, m);
            let stepk = run_wrapped(events[k], mws, 0, ctx_prefix(events, mws, m, k));
            &&& model.status == ChainStatus::Failed
            &&& model.success == false
            &&& model.ctx == stepk.0
            &&& model.failures == failures_upto(events, mws, m, k + 1)
            &&& model.failures.len() >= 1
            &&& model.failures.last().name == events[k].spec_name()
            &&& model.failures.last().is_mw == true
        }),
    decreases k,
{
    let step0 = run_wrapped(events[0], mws, 0, m);
    assert(ctx_prefix(events, mws, m, 0) == m);
    if k == 0 {
        let fm = FailureModel {
            name: events[0].spec_name(),
            msg: step0.1->MiddlewareFailure_0,
            is_mw: true,
        };
        assert(failures_upto(events, mws, m, 0) =~= Seq::<FailureModel>::empty());
        assert(failures_upto(events, mws, m, 1) =~= seq![fm]);
    } else {
        assert(!(run_wrapped(events[0], mws, 0, ctx_prefix(events, mws, m, 0)).1
            is MiddlewareFailure));
        let rest = events.skip(1);
        assert forall|j: int|
            0 <= j < k - 1 implies !((#[trigger] run_wrapped(
            rest[j],
            mws,
            0,
            ctx_prefix(rest, mws, step0.0, j),
        )).1 is MiddlewareFailure) by {
            lemma_ctx_prefix_shift(events, mws, m, j);
            assert(rest[j] == events[j + 1]);
            assert(!(run_wrapped(events[j + 1], mws, 0, ctx_prefix(events, mws, m, j + 1)).1
                is MiddlewareFailure));
        }
        lemma_ctx_prefix_shift(events, mws, m, k - 1);
        assert(rest[k - 1] == events[k]);
        lemma_chain_best_effort_truncates(rest, mws, step0.0, k - 1);
        match step0.1 {
            OutcomeModel::Success => {
                lemma_failures_upto_shift(events, mws, m, k);
            },
            OutcomeModel::Failure(msg) => {
                lemma_failures_upto_shift_failed(events, mws, m, k);
                let model = chain_model(events, mws, FaultToleranceMode::BestEffort, m);
                assert(model.failures =~= failures_upto(events, mws, m, k + 1));
            },
            OutcomeModel::MiddlewareFailure(_) => {},
        }
    }
}

/// A statically-defined chain: a fixed pipeline of one event type with no
/// middleware, for hot paths.  Strict mode stops at the first failure of
/// any kind; the other modes record failures and always continue.
pub open spec fn static_chain_model<E: ChainableEvent>(
    events: Seq<E>,
    mode: FaultToleranceMode,
    m: Map<Seq<char>, ContextValue>,
) -> ChainModel
    decreases events.len(),
{
    if events.len() == 0 {
        ChainModel {
            ctx: m,
            status: ChainStatus::Completed,
            success: true,
            failures: Seq::empty(),
        }
    } else {
        let step = events[0].spec_step(m);
        match step.1 {
            OutcomeModel::Success => static_chain_model(events.skip(1), mode, step.0),
            OutcomeModel::Failure(msg) => {
                let fm = FailureModel { name: events[0].spec_name(), msg, is_mw: false };
                if mode is Strict {
                    ChainModel {
                        ctx: step.0,
                        status: ChainStatus::Failed,
                        success: false,
                        failures: seq![fm],
                    }
                } else {
                    let rest = static_chain_model(events.skip(1), mode, step.0);
                    ChainModel {
                        ctx: rest.ctx,
                        status: if rest.status is Failed {
                            ChainStatus::Failed
                        } else {
                            ChainStatus::CompletedWithWarnings
                        },
                        success: rest.success,
                        failures: seq![fm] + rest.failures,
                    }
                }
            },
            OutcomeModel::MiddlewareFailure(msg) => {
                let fm = FailureModel { name: events[0].spec_name(), msg, is_mw: true };
                if mode is Strict {
                    ChainModel {
                        ctx: step.0,
                        status: ChainStatus::Failed,
                        success: false,
                        failures: seq![fm],
                    }
                } else {
                    let rest = static_chain_model(events.skip(1), mode, step.0);
                    ChainModel {
                        ctx: rest.ctx,
                        status: if rest.status is Failed {
                            ChainStatus::Failed
                        } else {
                            ChainStatus::CompletedWithWarnings
                        },
                        success: rest.success,
                        failures: seq![fm] + rest.failures,
                    }
                }
            },
        }
    }
}

/// A statically-defined event chain with known event type and no middleware.
pub struct StaticChain<E: ChainableEvent> {
    events: Vec<E>,
    fault_tolerance: FaultToleranceMode,
}

impl<E: ChainableEvent> StaticChain<E> {
    /// The events of this chain, in execution order.
    pub closed spec fn events_model(&self) -> Seq<E> {
        self.events@
    }

    /// The chain's fault-tolerance mode.
    pub closed spec fn mode(&self) -> FaultToleranceMode {
        self.fault_tolerance
    }

    /// Create a new static chain from its events
    pub fn new(events: Vec<E>) -> (r: StaticChain<E>)
        ensures
            r.events_model() == events@,
            r.mode() == FaultToleranceMode::Strict,
    {
        StaticChain { events, fault_tolerance: FaultToleranceMode::Strict }
    }

    /// Set fault tolerance mode
    pub fn with_fault_tolerance(self, mode: FaultToleranceMode) -> (r: StaticChain<E>)
        ensures
            r.events_model() == self.events_model(),
            r.mode() == mode,
    {
        StaticChain { fault_tolerance: mode, ..self }
    }

    /// Execute the chain (no middleware support for maximum performance)
    pub fn execute(&self, context: &mut EventContext) -> (r: ChainResult)
        requires
            old(context).wf(),
        ensures
            final(context).wf(),
            ({
                let model = static_chain_model(self.events_model(), self.mode(), old(context)@);
                &&& final(context)@ == model.ctx
                &&& r.status == model.status
                &&& r.success == model.success
                &&& r.failures_model() == cap_failures(model.failures)
                &&& r.wf()
            }),
    {
        let ghost mode = self.mode();
        let ghost full = static_chain_model(self.events_model(), mode, old(context)@);
        let mut result = ChainResult::success();
        let mut had_failures = false;
        let ghost mut gacc: Seq<FailureModel> = Seq::empty();

        proof {
            assert(self.events_model().skip(0) =~= self.events_model());
            assert(gacc + full.failures =~= full.failures);
        }
        let n = self.events.len();
        let mut i: usize = 0;
        while i < n
            invariant
                context.wf(),
                i <= n,
                n == self.events_model().len(),
                mode == self.mode(),
                full == static_chain_model(self.events_model(), mode, old(context)@),
                result.wf(),
                result.success == true,
                result.status == ChainStatus::Completed,
                result.failures_model() == cap_failures(gacc),
                had_failures == (gacc.len() > 0),
                ({
                    let sub = static_chain_model(self.events_model().skip(i as int), mode, context@);
                    &&& full.ctx == sub.ctx
                    &&& full.success == sub.success
                    &&& full.status == combine_status(had_failures, sub.status)
                    &&& full.failures == gacc + sub.failures
                }),
            decreases n - i,
        {
            let ghost pre = context@;
            let ghost evs = self.events_model().skip(i as int);
            proof {
                assert(evs[0] == self.events_model()[i as int]);
                assert(evs.skip(1) =~= self.events_model().skip(i as int + 1));
            }
            let event = &self.events[i];
            let event_result = event.execute(context);
            let ghost step = evs[0].spec_step(pre);
            let ghost sub = static_chain_model(evs, mode, pre);
            proof {
                assert(*event == evs[0]);
                assert(context@ == step.0);
                assert(event_result.model() == step.1);
            }

            match event_result {
                EventResult::Success(_) => {
                    proof {
                        assert(sub == static_chain_model(evs.skip(1), mode, step.0));
                    }
                },
                EventResult::Failure(msg) => {
                    had_failures = true;
                    let failure = EventFailure {
                        event_name: event.name(),
                        error: msg,
                        is_middleware_failure: false,
                    };
                    let ghost gacc0 = gacc;
                    proof {
                        assert(step.1 == OutcomeModel::Failure(msg@));
                        lemma_cap_push(gacc, failure.model());
                        gacc = gacc.push(failure.model());
                    }
                    result.add_failure(failure);
                    if let FaultToleranceMode::Strict = self.fault_tolerance {
                        proof {
                            assert(sub.failures =~= seq![failure.model()]);
                            assert(gacc0 + sub.failures =~= gacc);
                        }
                        result.success = false;
                        result.status = ChainStatus::Failed;
                        return result;
                    }
                    proof {
                        let rest = static_chain_model(evs.skip(1), mode, step.0);
                        assert(sub.failures == seq![failure.model()] + rest.failures);
                        assert(gacc0 + sub.failures =~= gacc + rest.failures);
                    }
                },
                EventResult::MiddlewareFailure(msg) => {
                    had_failures = true;
                    let failure = EventFailure {
                        event_name: event.name(),
                        error: msg,
                        is_middleware_failure: true,
                    };
                    let ghost gacc0 = gacc;
                    proof {
                        assert(step.1 == OutcomeModel::MiddlewareFailure(msg@));
                        lemma_cap_push(gacc, failure.model());
                        gacc = gacc.push(failure.model());
                    }
                    result.add_failure(failure);
                    if let FaultToleranceMode::Strict = self.fault_tolerance {
                        proof {
                            assert(sub.failures =~= seq![failure.model()]);
                            assert(gacc0 + sub.failures =~= gacc);
                        }
                        result.success = false;
                        result.status = ChainStatus::Failed;
                        return result;
                    }
                    proof {
                        let rest = static_chain_model(evs.skip(1), mode, step.0);
                        assert(sub.failures == seq![failure.model()] + rest.failures);
                        assert(gacc0 + sub.failures =~= gacc + rest.failures);
                    }
                },
            }
            i += 1;
        }

        proof {
            assert(self.events_model().skip(n as int) =~= Seq::<E>::empty());
            assert(gacc + Seq::<FailureModel>::empty() =~= gacc);
        }
        if had_failures {
            result.status = ChainStatus::CompletedWithWarnings;
        }
        result
    }
}

} // verus!

//! Result types for event execution: the per-event outcome, the inline
//! error message it carries, and the aggregate result of a whole chain.
//!
//! The split between `Failure` (an event decided it cannot produce its
//! result) and `MiddlewareFailure` (an infrastructure decision) is
//! load-bearing: fault-tolerance policy treats the two differently.

use vstd::prelude::*;
use vstd::string::StrSliceExecFns;
use vstd::string::StringExecFns;
use vstd::pervasive::unreached;

verus! {

/// Maximum error message length, in characters
pub const MAX_ERROR_LEN: usize = 128;

/// A message sequence clipped to the inline capacity.
pub open spec fn trunc_msg(s: Seq<char>) -> Seq<char> {
    if s.len() <= MAX_ERROR_LEN {
        s
    } else {
        s.take(MAX_ERROR_LEN as int)
    }
}

/// Error message storage, bounded to `MAX_ERROR_LEN` characters; longer
/// messages are truncated on construction.
#[derive(Clone)]
pub struct ErrorMessage {
    text: String,
}

impl ErrorMessage {
    /// The message as a character sequence.
    pub closed spec fn view(&self) -> Seq<char> {
        self.text@
    }

    pub open spec fn wf(&self) -> bool {
        self@.len() <= MAX_ERROR_LEN
    }

    /// Create from a static string
    pub fn from_static(s: &'static str) -> (r: ErrorMessage)
        ensures
            r@ == trunc_msg(s@),
            r.wf(),
    {
        ErrorMessage::from_str_slice(s)
    }

    /// Create from a string slice
    pub fn from_str_slice(s: &str) -> (r: ErrorMessage)
        ensures
            r@ == trunc_msg(s@),
            r.wf(),
    {
        if s.unicode_len() <= MAX_ERROR_LEN {
            ErrorMessage { text: s.to_owned() }
        } else {
            ErrorMessage { text: s.substring_char(0, MAX_ERROR_LEN).to_owned() }
        }
    }

    /// Get the message as a string slice
    pub fn as_str(&self) -> (r: &str)
        ensures
            r@ == self@,
    {
        self.text.as_str()
    }
}

/// The abstract outcome of one (possibly middleware-wrapped) event run.
pub enum OutcomeModel {
    Success,
    Failure(Seq<char>),
    MiddlewareFailure(Seq<char>),
}

impl OutcomeModel {
    pub open spec fn is_failure(&self) -> bool {
        !(self is Success)
    }
}

/// Result of event execution
#[derive(Clone)]
pub enum EventResult<T> {
    /// Event executed successfully
    Success(T),
    /// Event failed (business logic error)
    Failure(ErrorMessage),
    /// Middleware infrastructure failed
    MiddlewareFailure(ErrorMessage),
}

impl<T> EventResult<T> {
    /// The outcome this result denotes, with the success value forgotten.
    pub open spec fn model(&self) -> OutcomeModel {
        match self {
            EventResult::Success(_) => OutcomeModel::Success,
            EventResult::Failure(m) => OutcomeModel::Failure(m@),
            EventResult::MiddlewareFailure(m) => OutcomeModel::MiddlewareFailure(m@),
        }
    }

    /// Messages carried by a result are within the inline bound.
    pub open spec fn wf(&self) -> bool {
        match self {
            EventResult::Success(_) => true,
            EventResult::Failure(m) => m.wf(),
            EventResult::MiddlewareFailure(m) => m.wf(),
        }
    }

    /// Create a success result
    pub fn success(value: T) -> (r: EventResult<T>)
        ensures
            r matches EventResult::Success(v) && v == value,
    {
        EventResult::Success(value)
    }

    /// Create a failure result from static string
    pub fn failure(msg: &'static str) -> (r: EventResult<T>)
        ensures
            r.model() == OutcomeModel::Failure(trunc_msg(msg@)),
            r.wf(),
    {
        EventResult::Failure(ErrorMessage::from_static(msg))
    }

    /// Create a failure result from string slice
    pub fn failure_str(msg: &str) -> (r: EventResult<T>)
        ensures
            r.model() == OutcomeModel::Failure(trunc_msg(msg@)),
            r.wf(),
    {
        EventResult::Failure(ErrorMessage::from_str_slice(msg))
    }

    /// Create a middleware failure from static string
    pub fn middleware_failure(msg: &'static str) -> (r: EventResult<T>)
        ensures
            r.model() == OutcomeModel::MiddlewareFailure(trunc_msg(msg@)),
            r.wf(),
    {
        EventResult::MiddlewareFailure(ErrorMessage::from_static(msg))
    }

    /// Check if this is a success
    pub fn is_success(&self) -> (r: bool)
        ensures
            r == (self.model() is Success),
    {
        matches!(self, EventResult::Success(_))
    }

    /// Check if this is any kind of failure
    pub fn is_failure(&self) -> (r: bool)
        ensures
            r == self.model().is_failure(),
    {
        matches!(self, EventResult::Failure(_) | EventResult::MiddlewareFailure(_))
    }

    /// Check if this is specifically an event failure
    pub fn is_event_failure(&self) -> (r: bool)
        ensures
            r == (self.model() is Failure),
    {
        matches!(self, EventResult::Failure(_))
    }

    /// Check if this is a middleware failure
    pub fn is_middleware_failure(&self) -> (r: bool)
        ensures
            r == (self.model() is MiddlewareFailure),
    {
        matches!(self, EventResult::MiddlewareFailure(_))
    }

    /// Get the error message if this is a failure
    pub fn error_message(&self) -> (r: Option<&ErrorMessage>)
        ensures
            match r {
                Some(m) => self.model().is_failure() && (self.model() matches
                OutcomeModel::Failure(t) ==> m@ == t) && (self.model() matches
                OutcomeModel::MiddlewareFailure(t) ==> m@ == t),
                None => self.model() is Success,
            },
    {
        match self {
            EventResult::Failure(msg) => Some(msg),
            EventResult::MiddlewareFailure(msg) => Some(msg),
            EventResult::Success(_) => None,
        }
    }

    /// Unwrap the success value.  Failures are outside this function's
    /// contract: the kernel never unwraps an unchecked result.
    pub fn unwrap(self) -> (r: T)
        requires
            self matches EventResult::Success(_),
        ensures
            self matches EventResult::Success(v) && r == v,
    {
        match self {
            EventResult::Success(v) => v,
            EventResult::Failure(_) => unreached(),
            EventResult::MiddlewareFailure(_) => unreached(),
        }
    }

    /// Get the success value or a default
    pub fn unwrap_or(self, default: T) -> (r: T)
        ensures
            match self {
                EventResult::Success(v) => r == v,
                _ => r == default,
            },
    {
        match self {
            EventResult::Success(v) => v,
            _ => default,
        }
    }

    /// Map the success value
    pub fn map<U, F: FnOnce(T) -> U>(self, f: F) -> (r: EventResult<U>)
        requires
            self matches EventResult::Success(v) ==> f.requires((v,)),
        ensures
            (self matches EventResult::Success(v) ==> r matches EventResult::Success(u)
                && f.ensures((v,), u)),
            (self matches EventResult::Failure(m) ==> r matches EventResult::Failure(n) && n@
                == m@),
            (self matches EventResult::MiddlewareFailure(m) ==> r matches
                EventResult::MiddlewareFailure(n) && n@ == m@),
    {
        match self {
            EventResult::Success(v) => EventResult::Success(f(v)),
            EventResult::Failure(msg) => EventResult::Failure(msg),
            EventResult::MiddlewareFailure(msg) => EventResult::MiddlewareFailure(msg),
        }
    }
}

/// Chain execution status
#[derive(Clone, Copy, Debug, PartialEq, Eq, Structural)]
pub enum ChainStatus {
    /// All events completed successfully
    Completed,
    /// Chain completed but some events failed (Lenient/BestEffort mode)
    CompletedWithWarnings,
    /// Chain failed and stopped early
    Failed,
}

/// Maximum number of failures a chain result records
pub const MAX_FAILURES: usize = 16;

/// The abstract content of one recorded failure.
pub struct FailureModel {
    pub name: Seq<char>,
    pub msg: Seq<char>,
    pub is_mw: bool,
}

/// Event failure record
#[derive(Clone)]
pub struct EventFailure {
    /// Name of the failed event
    pub event_name: &'static str,
    /// Error message
    pub error: ErrorMessage,
    /// Whether this was a middleware failure
    pub is_middleware_failure: bool,
}

impl EventFailure {
    pub open spec fn model(&self) -> FailureModel {
        FailureModel {
            name: self.event_name@,
            msg: self.error@,
            is_mw: self.is_middleware_failure,
        }
    }
}

/// A failure sequence clipped to the recording capacity.
pub open spec fn cap_failures(s: Seq<FailureModel>) -> Seq<FailureModel> {
    if s.len() <= MAX_FAILURES {
        s
    } else {
        s.take(MAX_FAILURES as int)
    }
}

/// Result of chain execution
pub struct ChainResult {
    /// Overall success status
    pub success: bool,
    /// Chain status
    pub status: ChainStatus,
    /// Recorded failures, bounded by `MAX_FAILURES`
    pub failures: Vec<EventFailure>,
}

impl ChainResult {
    /// The recorded failures, abstractly.
    pub open spec fn failures_model(&self) -> Seq<FailureModel> {
        self.failures@.map_values(|f: EventFailure| f.model())
    }

    pub open spec fn wf(&self) -> bool {
        self.failures.len() <= MAX_FAILURES
    }

    /// Create a successful chain result
    pub fn success() -> (r: ChainResult)
        ensures
            r.success == true,
            r.status == ChainStatus::Completed,
            r.failures_model() == Seq::<FailureModel>::empty(),
            r.wf(),
    {
        let r = ChainResult { success: true, status: ChainStatus::Completed, failures: Vec::new() };
        proof {
            assert(r.failures_model() =~= Seq::<FailureModel>::empty());
        }
        r
    }

    /// Create a partial success (some failures in lenient mode)
    pub fn partial_success() -> (r: ChainResult)
        ensures
            r.success == true,
            r.status == ChainStatus::CompletedWithWarnings,
            r.failures_model() == Seq::<FailureModel>::empty(),
            r.wf(),
    {
        let r = ChainResult {
            success: true,
            status: ChainStatus::CompletedWithWarnings,
            failures: Vec::new(),
        };
        proof {
            assert(r.failures_model() =~= Seq::<FailureModel>::empty());
        }
        r
    }

    /// Create a failed chain result
    pub fn failed() -> (r: ChainResult)
        ensures
            r.success == false,
            r.status == ChainStatus::Failed,
            r.failures_model() == Seq::<FailureModel>::empty(),
            r.wf(),
    {
        let r = ChainResult { success: false, status: ChainStatus::Failed, failures: Vec::new() };
        proof {
            assert(r.failures_model() =~= Seq::<FailureModel>::empty());
        }
        r
    }

    /// Add a failure record; past the capacity the record is dropped.
    pub fn add_failure(&mut self, failure: EventFailure)
        requires
            old(self).wf(),
        ensures
            final(self).wf(),
            final(self).success == old(self).success,
            final(self).status == old(self).status,
            final(self).failures_model() == (if old(self).failures_model().len() < MAX_FAILURES {
                old(self).failures_model().push(failure.model())
            } else {
                old(self).failures_model()
            }),
    {
        if self.failures.len() < MAX_FAILURES {
            self.failures.push(failure);
            proof {
                assert(self.failures_model() =~= old(self).failures_model().push(
                    failure.model(),
                ));
            }
        }
    }

    /// Get the number of failures
    pub fn failure_count(&self) -> (r: usize)
        ensures
            r == self.failures_model().len(),
    {
        self.failures.len()
    }

    /// The recorded failures.
    pub fn failures(&self) -> (r: &Vec<EventFailure>)
        ensures
            r@.map_values(|f: EventFailure| f.model()) == self.failures_model(),
    {
        &self.failures
    }
}

} // verus!

//! Middleware: wrappers around event execution where cross-cutting concerns
//! live (logging, permission checks, auditing, timing, retry, dependency
//! checks, focus policy).
//!
//! A middleware may short-circuit before the event runs, re-invoke the inner
//! pipeline, or simply pass through.  The chain stores middleware as one
//! closed alphabet, `MiddlewareRef`, whose abstract behaviour is given by
//! `pre_check` (what makes it reject before the event runs) and `tries`
//! (how often it re-invokes the inner pipeline).

use vstd::prelude::*;
use crate::context::{ContextValue, spec_get_u32};
use crate::event_result::trunc_msg;

verus! {

/// Logging middleware - logs event execution
pub struct LoggingMiddleware {
    pub log_success: bool,
    pub log_failure: bool,
}

impl LoggingMiddleware {
    pub fn new() -> (r: LoggingMiddleware)
        ensures
            r.log_success && r.log_failure,
    {
        LoggingMiddleware { log_success: true, log_failure: true }
    }

    pub fn errors_only() -> (r: LoggingMiddleware)
        ensures
            !r.log_success && r.log_failure,
    {
        LoggingMiddleware { log_success: false, log_failure: true }
    }
}

/// Permission checking middleware: rejects an event when the context's
/// `ring` exceeds the ring this middleware admits.
pub struct PermissionMiddleware {
    pub required_ring: u8,
}

impl PermissionMiddleware {
    pub fn kernel_only() -> (r: PermissionMiddleware)
        ensures
            r.required_ring == 0,
    {
        PermissionMiddleware { required_ring: 0 }
    }

    pub fn user_allowed() -> (r: PermissionMiddleware)
        ensures
            r.required_ring == 3,
    {
        PermissionMiddleware { required_ring: 3 }
    }

    pub fn new(ring: u8) -> (r: PermissionMiddleware)
        ensures
            r.required_ring == ring,
    {
        PermissionMiddleware { required_ring: ring }
    }
}

/// Audit logging middleware: records the operation and passes through.
pub struct AuditMiddleware;

impl AuditMiddleware {
    pub fn new() -> AuditMiddleware {
        AuditMiddleware
    }
}

/// Timing middleware: brackets execution with tick reads and passes through.
pub struct TimingMiddleware;

impl TimingMiddleware {
    pub fn new() -> TimingMiddleware {
        TimingMiddleware
    }
}

/// Retry middleware: re-invokes the inner pipeline while it fails, up to
/// `max_retries` extra attempts.
pub struct RetryMiddleware {
    pub max_retries: u8,
}

impl RetryMiddleware {
    pub fn new(max_retries: u8) -> (r: RetryMiddleware)
        ensures
            r.max_retries == max_retries,
    {
        RetryMiddleware { max_retries }
    }

    pub fn default_retries() -> (r: RetryMiddleware)
        ensures
            r.max_retries == 3,
    {
        RetryMiddleware { max_retries: 3 }
    }
}

/// Dependency middleware: rejects an event whose prerequisites are missing
/// from the context.  The input-device bring-up events require the screen
/// dimensions published by framebuffer initialisation.
pub struct DependencyMiddleware;

impl DependencyMiddleware {
    pub fn new() -> DependencyMiddleware {
        DependencyMiddleware
    }
}

/// Focus-policy middleware: may reject focus transitions that did not arise
/// from user input.  The permissive configuration admits all of them.
pub struct FocusPolicyMiddleware {
    pub allow_focus_steal: bool,
}

impl FocusPolicyMiddleware {
    pub fn new() -> (r: FocusPolicyMiddleware)
        ensures
            r.allow_focus_steal,
    {
        FocusPolicyMiddleware { allow_focus_steal: true }
    }

    pub fn strict() -> (r: FocusPolicyMiddleware)
        ensures
            !r.allow_focus_steal,
    {
        FocusPolicyMiddleware { allow_focus_steal: false }
    }
}

/// Window-manager audit middleware: records window operations and passes
/// through.
pub struct WmAuditMiddleware;

impl WmAuditMiddleware {
    pub fn new() -> WmAuditMiddleware {
        WmAuditMiddleware
    }
}

/// The middleware alphabet a chain can hold.
pub enum MiddlewareRef {
    Logging(LoggingMiddleware),
    Permission(PermissionMiddleware),
    Audit(AuditMiddleware),
    Timing(TimingMiddleware),
    Retry(RetryMiddleware),
    Dependency(DependencyMiddleware),
    FocusPolicy(FocusPolicyMiddleware),
    WmAudit(WmAuditMiddleware),
}

/// The ring the context claims, as the permission check reads it: the `ring`
/// entry's low byte, defaulting to ring 0.
pub open spec fn ring_of(m: Map<Seq<char>, ContextValue>) -> u8 {
    let v = match spec_get_u32(m, "ring"@) {
        Some(v) => v,
        None => 0,
    };
    (v & 0xFF) as u8
}

impl MiddlewareRef {
    /// The rejection this middleware makes before the event runs, if any:
    /// `Some(message)` short-circuits the pipeline with a middleware
    /// failure carrying that message.
    pub open spec fn pre_check(&self, event_name: Seq<char>, m: Map<Seq<char>, ContextValue>) ->
        Option<Seq<char>> {
        match self {
            MiddlewareRef::Permission(p) => {
                if ring_of(m) > p.required_ring {
                    Some(trunc_msg("insufficient privileges"@))
                } else {
                    None
                }
            },
            MiddlewareRef::Dependency(_) => {
                if (event_name == "synaptics_init"@ || event_name == "ps2_mouse_init"@)
                    && spec_get_u32(m, "scr_width"@) is None {
                    Some(trunc_msg("Screen dimensions not set"@))
                } else {
                    None
                }
            },
            _ => None,
        }
    }

    /// How many times this middleware invokes the inner pipeline, at most.
    pub open spec fn tries(&self) -> nat {
        match self {
            MiddlewareRef::Retry(r) => r.max_retries as nat + 1,
            _ => 1,
        }
    }

    /// Name of this middleware (for debugging)
    pub fn name(&self) -> &'static str {
        match self {
            MiddlewareRef::Logging(_) => "LoggingMiddleware",
            MiddlewareRef::Permission(_) => "PermissionMiddleware",
            MiddlewareRef::Audit(_) => "AuditMiddleware",
            MiddlewareRef::Timing(_) => "TimingMiddleware",
            MiddlewareRef::Retry(_) => "RetryMiddleware",
            MiddlewareRef::Dependency(_) => "DependencyMiddleware",
            MiddlewareRef::FocusPolicy(_) => "FocusPolicyMiddleware",
            MiddlewareRef::WmAudit(_) => "WmAuditMiddleware",
        }
    }
}

} // verus!

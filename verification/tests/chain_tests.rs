//! Chain, context and syscall behaviour on concrete values.

use rustacean_kernel::chain::{EventChain, FaultToleranceMode};
use rustacean_kernel::context::EventContext;
use rustacean_kernel::event_result::ChainStatus;
use rustacean_kernel::middleware::{LoggingMiddleware, MiddlewareRef, WmAuditMiddleware};
use rustacean_kernel::syscall::{handle_syscall, SyscallNumber, SyscallParams};
use rustacean_kernel::wm_events::{WindowDestroyEvent, FocusChangeEvent, WmEvent};

#[test]
fn context_set_get_remove() {
    let mut ctx = EventContext::new();
    assert!(ctx.is_empty());
    ctx.set_u32("alpha", 7);
    ctx.set_u32("beta", 9);
    assert_eq!(ctx.get_u32("alpha"), Some(7));
    assert_eq!(ctx.get_u32("beta"), Some(9));
    assert_eq!(ctx.len(), 2);
    ctx.set_u32("alpha", 11);
    assert_eq!(ctx.get_u32("alpha"), Some(11));
    assert_eq!(ctx.len(), 2);
    ctx.set_bool("flag", true);
    assert_eq!(ctx.get_bool("flag"), Some(true));
    assert_eq!(ctx.get_u32("flag"), None);
    ctx.remove("alpha");
    assert_eq!(ctx.get_u32("alpha"), None);
    assert_eq!(ctx.len(), 2);
    assert!(ctx.has("beta"));
    ctx.clear();
    assert!(ctx.is_empty());
}

#[test]
fn context_capacity_is_bounded() {
    let mut ctx = EventContext::new();
    for i in 0..40u32 {
        let name = format!("k{}", i);
        ctx.set_u32(&name, i);
    }
    // only the first 32 inserts took
    assert_eq!(ctx.len(), 32);
    assert_eq!(ctx.get_u32("k0"), Some(0));
    assert_eq!(ctx.get_u32("k31"), Some(31));
    assert_eq!(ctx.get_u32("k32"), None);
}

#[test]
fn strict_chain_stops_at_first_failure() {
    // the destroy event fails without an id in the context; the focus
    // event would succeed, but Strict never reaches it
    let chain = EventChain::<WmEvent>::new()
        .middleware(MiddlewareRef::Logging(LoggingMiddleware::new()))
        .middleware(MiddlewareRef::WmAudit(WmAuditMiddleware::new()))
        .event(WmEvent::Destroy(WindowDestroyEvent))
        .event(WmEvent::Focus(FocusChangeEvent))
        .with_fault_tolerance(FaultToleranceMode::Strict);
    let mut ctx = EventContext::new();
    let result = chain.execute(&mut ctx);
    assert!(!result.success);
    assert_eq!(result.status, ChainStatus::Failed);
    assert_eq!(result.failure_count(), 1);
    assert_eq!(result.failures()[0].event_name, "wm_window_destroy");
    // the focus event never ran: its success marker is absent
    assert_eq!(ctx.get_bool("wm_success"), None);
}

#[test]
fn best_effort_chain_accumulates_event_failures() {
    let chain = EventChain::<WmEvent>::new()
        .middleware(MiddlewareRef::Logging(LoggingMiddleware::new()))
        .event(WmEvent::Destroy(WindowDestroyEvent))
        .event(WmEvent::ZOrder(rustacean_kernel::wm_events::ZOrderChangeEvent))
        .event(WmEvent::Focus(FocusChangeEvent))
        .with_fault_tolerance(FaultToleranceMode::BestEffort);
    let mut ctx = EventContext::new();
    let result = chain.execute(&mut ctx);
    // two failures accumulate, the chain still completes
    assert!(result.success);
    assert_eq!(result.status, ChainStatus::CompletedWithWarnings);
    assert_eq!(result.failure_count(), 2);
    assert_eq!(result.failures()[0].event_name, "wm_window_destroy");
    assert_eq!(result.failures()[1].event_name, "wm_z_order_change");
    // the focus event did run
    assert_eq!(ctx.get_bool("wm_success"), Some(true));
}

#[test]
fn lenient_chain_records_and_continues() {
    let chain = EventChain::<WmEvent>::new()
        .event(WmEvent::Destroy(WindowDestroyEvent))
        .event(WmEvent::Focus(FocusChangeEvent))
        .with_fault_tolerance(FaultToleranceMode::Lenient);
    let mut ctx = EventContext::new();
    let result = chain.execute(&mut ctx);
    assert!(result.success);
    assert_eq!(result.status, ChainStatus::CompletedWithWarnings);
    assert_eq!(result.failure_count(), 1);
    assert_eq!(ctx.get_bool("wm_success"), Some(true));
}

#[test]
fn syscall_write_returns_count() {
    // write three bytes to fd 1 at ring 3: the chain passes logging,
    // permission and audit, and the result is the count
    let params = SyscallParams::from_regs(2, 1, 0x1000, 3, 0, 0);
    assert!(matches!(params.number, SyscallNumber::Write));
    let r = handle_syscall(params, 42, 12345);
    assert_eq!(r, 3);
}

#[test]
fn syscall_write_to_other_fd_returns_zero() {
    let params = SyscallParams::from_regs(2, 5, 0x1000, 3, 0, 0);
    let r = handle_syscall(params, 42, 12345);
    assert_eq!(r, 0);
}

#[test]
fn syscall_getpid_and_time() {
    let getpid = SyscallParams::from_regs(5, 0, 0, 0, 0, 0);
    assert_eq!(handle_syscall(getpid, 42, 999), 42);
    let time = SyscallParams::from_regs(14, 0, 0, 0, 0, 0);
    assert_eq!(handle_syscall(time, 42, 999), 999);
}

#[test]
fn syscall_unknown_fails() {
    let params = SyscallParams::from_regs(777, 0, 0, 0, 0, 0);
    assert!(matches!(params.number, SyscallNumber::Unknown));
    assert_eq!(handle_syscall(params, 1, 1), u32::MAX);
}

#[test]
fn syscall_exit_read_yield_sleep_return_zero() {
    for eax in [0u32, 1, 12, 13] {
        let params = SyscallParams::from_regs(eax, 9, 9, 9, 9, 9);
        assert_eq!(handle_syscall(params, 7, 7), 0);
    }
}

#[test]
fn best_effort_chain_stops_at_middleware_failure() {
    // a ring-3 context fails the kernel-only permission check: that is a
    // middleware failure, and even BestEffort stops the whole chain
    let chain = EventChain::<WmEvent>::new()
        .middleware(MiddlewareRef::Logging(LoggingMiddleware::new()))
        .middleware(MiddlewareRef::Permission(
            rustacean_kernel::middleware::PermissionMiddleware::kernel_only(),
        ))
        .event(WmEvent::Focus(FocusChangeEvent))
        .event(WmEvent::Destroy(WindowDestroyEvent))
        .with_fault_tolerance(FaultToleranceMode::BestEffort);
    let mut ctx = EventContext::new();
    ctx.set_u32("ring", 3);
    let result = chain.execute(&mut ctx);
    assert!(!result.success);
    assert_eq!(result.status, ChainStatus::Failed);
    assert_eq!(result.failure_count(), 1);
    assert!(result.failures()[0].is_middleware_failure);
    assert_eq!(result.failures()[0].error.as_str(), "insufficient privileges");
    // the second event never ran
    assert_eq!(ctx.get_bool("wm_success"), None);
}

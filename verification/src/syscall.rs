//! System calls: one event per call number, executed through a Strict
//! chain wrapped in logging, permission and audit middleware.
//!
//! The handler receives the saved registers as a parameter block, the
//! current task's pid and the uptime (the two values the events would
//! otherwise read from the scheduler and the timer), builds the context,
//! and returns the event's result word, or the all-ones word when the
//! chain fails.  Writing the bytes of a `write` call to the console is the
//! caller's I/O; the handler fixes the count.

use vstd::prelude::*;
use crate::chain::{
    chain_model,
    ChainableEvent,
    EventChain,
    FaultToleranceMode,
    run_wrapped,
};
use crate::context::{ctx_set, spec_get_u32, ContextValue, EventContext};
use crate::event_result::{EventResult, OutcomeModel, trunc_msg};
use crate::middleware::{
    AuditMiddleware,
    LoggingMiddleware,
    MiddlewareRef,
    PermissionMiddleware,
};
use crate::wm_events::u32_or;

verus! {

/// System call numbers
#[derive(Clone, Copy, Debug, PartialEq, Eq, Structural)]
pub enum SyscallNumber {
    /// Exit the current process
    Exit,
    /// Read from file descriptor
    Read,
    /// Write to file descriptor
    Write,
    /// Open a file
    Open,
    /// Close a file descriptor
    Close,
    /// Get process ID
    GetPid,
    /// Fork the current process
    Fork,
    /// Execute a new program
    Exec,
    /// Wait for child process
    Wait,
    /// Create a pipe
    Pipe,
    /// Memory map
    Mmap,
    /// Memory unmap
    Munmap,
    /// Yield CPU
    Yield,
    /// Sleep for milliseconds
    Sleep,
    /// Get current time
    Time,
    /// Unknown syscall
    Unknown,
}

/// The number a register word selects.
pub open spec fn spec_syscall_from(n: u32) -> SyscallNumber {
    match n {
        0u32 => SyscallNumber::Exit,
        1u32 => SyscallNumber::Read,
        2u32 => SyscallNumber::Write,
        3u32 => SyscallNumber::Open,
        4u32 => SyscallNumber::Close,
        5u32 => SyscallNumber::GetPid,
        6u32 => SyscallNumber::Fork,
        7u32 => SyscallNumber::Exec,
        8u32 => SyscallNumber::Wait,
        9u32 => SyscallNumber::Pipe,
        10u32 => SyscallNumber::Mmap,
        11u32 => SyscallNumber::Munmap,
        12u32 => SyscallNumber::Yield,
        13u32 => SyscallNumber::Sleep,
        14u32 => SyscallNumber::Time,
        _ => SyscallNumber::Unknown,
    }
}

impl SyscallNumber {
    /// Decode a register word into a call number.
    pub fn from_u32(n: u32) -> (r: SyscallNumber)
        ensures
            r == spec_syscall_from(n),
    {
        match n {
            0 => SyscallNumber::Exit,
            1 => SyscallNumber::Read,
            2 => SyscallNumber::Write,
            3 => SyscallNumber::Open,
            4 => SyscallNumber::Close,
            5 => SyscallNumber::GetPid,
            6 => SyscallNumber::Fork,
            7 => SyscallNumber::Exec,
            8 => SyscallNumber::Wait,
            9 => SyscallNumber::Pipe,
            10 => SyscallNumber::Mmap,
            11 => SyscallNumber::Munmap,
            12 => SyscallNumber::Yield,
            13 => SyscallNumber::Sleep,
            14 => SyscallNumber::Time,
            _ => SyscallNumber::Unknown,
        }
    }

    /// The code this number is carried as in the context.
    pub open spec fn spec_code(&self) -> u32 {
        match self {
            SyscallNumber::Exit => 0,
            SyscallNumber::Read => 1,
            SyscallNumber::Write => 2,
            SyscallNumber::Open => 3,
            SyscallNumber::Close => 4,
            SyscallNumber::GetPid => 5,
            SyscallNumber::Fork => 6,
            SyscallNumber::Exec => 7,
            SyscallNumber::Wait => 8,
            SyscallNumber::Pipe => 9,
            SyscallNumber::Mmap => 10,
            SyscallNumber::Munmap => 11,
            SyscallNumber::Yield => 12,
            SyscallNumber::Sleep => 13,
            SyscallNumber::Time => 14,
            SyscallNumber::Unknown => 0xFFFFFFFF,
        }
    }

    /// Encode the call number back to its code word.
    pub fn code(&self) -> (r: u32)
        ensures
            r == self.spec_code(),
    {
        match self {
            SyscallNumber::Exit => 0,
            SyscallNumber::Read => 1,
            SyscallNumber::Write => 2,
            SyscallNumber::Open => 3,
            SyscallNumber::Close => 4,
            SyscallNumber::GetPid => 5,
            SyscallNumber::Fork => 6,
            SyscallNumber::Exec => 7,
            SyscallNumber::Wait => 8,
            SyscallNumber::Pipe => 9,
            SyscallNumber::Mmap => 10,
            SyscallNumber::Munmap => 11,
            SyscallNumber::Yield => 12,
            SyscallNumber::Sleep => 13,
            SyscallNumber::Time => 14,
            SyscallNumber::Unknown => 0xFFFFFFFF,
        }
    }
}

/// System call parameters, as saved by the interrupt entry.
#[derive(Clone, Copy, Debug, PartialEq, Eq, Structural)]
pub struct SyscallParams {
    pub number: SyscallNumber,
    pub arg1: u32,
    pub arg2: u32,
    pub arg3: u32,
    pub arg4: u32,
    pub arg5: u32,
}

impl SyscallParams {
    /// Create from register values
    pub fn from_regs(eax: u32, ebx: u32, ecx: u32, edx: u32, esi: u32, edi: u32) -> (r:
        SyscallParams)
        ensures
            r.number == spec_syscall_from(eax),
            r.arg1 == ebx && r.arg2 == ecx && r.arg3 == edx && r.arg4 == esi && r.arg5 == edi,
    {
        SyscallParams {
            number: SyscallNumber::from_u32(eax),
            arg1: ebx,
            arg2: ecx,
            arg3: edx,
            arg4: esi,
            arg5: edi,
        }
    }
}

/// The per-number event implementations.
pub enum SyscallEvent {
    Exit,
    Read,
    Write,
    GetPid,
    Yield,
    Sleep,
    Time,
    Unknown,
}

impl ChainableEvent for SyscallEvent {
    open spec fn spec_name(&self) -> Seq<char> {
        match self {
            SyscallEvent::Exit => "sys_exit"@,
            SyscallEvent::Read => "sys_read"@,
            SyscallEvent::Write => "sys_write"@,
            SyscallEvent::GetPid => "sys_getpid"@,
            SyscallEvent::Yield => "sys_yield"@,
            SyscallEvent::Sleep => "sys_sleep"@,
            SyscallEvent::Time => "sys_time"@,
            SyscallEvent::Unknown => "sys_unknown"@,
        }
    }

    open spec fn spec_step(&self, m: Map<Seq<char>, ContextValue>) -> (
        Map<Seq<char>, ContextValue>,
        OutcomeModel,
    ) {
        match self {
            SyscallEvent::Exit => {
                (ctx_set(m, "result"@, ContextValue::U32(0)), OutcomeModel::Success)
            },
            SyscallEvent::Read => {
                (ctx_set(m, "result"@, ContextValue::U32(0)), OutcomeModel::Success)
            },
            SyscallEvent::Write => {
                let fd = u32_or(m, "arg1"@, 0);
                let count = u32_or(m, "arg3"@, 0);
                if fd == 1 || fd == 2 {
                    (ctx_set(m, "result"@, ContextValue::U32(count)), OutcomeModel::Success)
                } else {
                    (ctx_set(m, "result"@, ContextValue::U32(0)), OutcomeModel::Success)
                }
            },
            SyscallEvent::GetPid => {
                (
                    ctx_set(m, "result"@, ContextValue::U32(u32_or(m, "pid"@, 0))),
                    OutcomeModel::Success,
                )
            },
            SyscallEvent::Yield => (m, OutcomeModel::Success),
            SyscallEvent::Sleep => {
                (ctx_set(m, "result"@, ContextValue::U32(0)), OutcomeModel::Success)
            },
            SyscallEvent::Time => {
                let up = u32_or(m, "uptime"@, 0);
                (
                    ctx_set(
                        ctx_set(m, "result64"@, ContextValue::U64(up as u64)),
                        "result"@,
                        ContextValue::U32(up),
                    ),
                    OutcomeModel::Success,
                )
            },
            SyscallEvent::Unknown => {
                (
                    ctx_set(m, "result"@, ContextValue::U32(0xFFFFFFFF)),
                    OutcomeModel::Failure(trunc_msg("unknown syscall"@)),
                )
            },
        }
    }

    fn execute(&self, context: &mut EventContext) -> (r: EventResult<()>) {
        match self {
            SyscallEvent::Exit => {
                context.set_u32("result", 0);
                EventResult::success(())
            },
            SyscallEvent::Read => {
                context.set_u32("result", 0);
                EventResult::success(())
            },
            SyscallEvent::Write => {
                let fd = match context.get_u32("arg1") {
                    Some(v) => v,
                    None => 0,
                };
                let count = match context.get_u32("arg3") {
                    Some(v) => v,
                    None => 0,
                };
                if fd == 1 || fd == 2 {
                    // the console bytes themselves are the caller's I/O
                    context.set_u32("result", count);
                } else {
                    context.set_u32("result", 0);
                }
                EventResult::success(())
            },
            SyscallEvent::GetPid => {
                let pid = match context.get_u32("pid") {
                    Some(v) => v,
                    None => 0,
                };
                context.set_u32("result", pid);
                EventResult::success(())
            },
            SyscallEvent::Yield => {
                // the reschedule itself is the caller's action
                EventResult::success(())
            },
            SyscallEvent::Sleep => {
                // the timed wait itself is the caller's action
                context.set_u32("result", 0);
                EventResult::success(())
            },
            SyscallEvent::Time => {
                let up = match context.get_u32("uptime") {
                    Some(v) => v,
                    None => 0,
                };
                context.set_u64("result64", up as u64);
                context.set_u32("result", up);
                EventResult::success(())
            },
            SyscallEvent::Unknown => {
                context.set_u32("result", 0xFFFFFFFF);
                EventResult::failure("unknown syscall")
            },
        }
    }

    fn name(&self) -> (n: &'static str) {
        match self {
            SyscallEvent::Exit => "sys_exit",
            SyscallEvent::Read => "sys_read",
            SyscallEvent::Write => "sys_write",
            SyscallEvent::GetPid => "sys_getpid",
            SyscallEvent::Yield => "sys_yield",
            SyscallEvent::Sleep => "sys_sleep",
            SyscallEvent::Time => "sys_time",
            SyscallEvent::Unknown => "sys_unknown",
        }
    }
}

/// The event a call number selects.
pub open spec fn spec_event_for(n: SyscallNumber) -> SyscallEvent {
    match n {
        SyscallNumber::Exit => SyscallEvent::Exit,
        SyscallNumber::Read => SyscallEvent::Read,
        SyscallNumber::Write => SyscallEvent::Write,
        SyscallNumber::GetPid => SyscallEvent::GetPid,
        SyscallNumber::Yield => SyscallEvent::Yield,
        SyscallNumber::Sleep => SyscallEvent::Sleep,
        SyscallNumber::Time => SyscallEvent::Time,
        _ => SyscallEvent::Unknown,
    }
}

/// The result word a call returns.
pub open spec fn spec_syscall_result(params: SyscallParams, pid: u32, uptime_ms: u32) -> u32 {
    match spec_event_for(params.number) {
        SyscallEvent::Exit => 0,
        SyscallEvent::Read => 0,
        SyscallEvent::Write => if params.arg1 == 1 || params.arg1 == 2 {
            params.arg3
        } else {
            0
        },
        SyscallEvent::GetPid => pid,
        SyscallEvent::Yield => 0,
        SyscallEvent::Sleep => 0,
        SyscallEvent::Time => uptime_ms,
        SyscallEvent::Unknown => 0xFFFFFFFF,
    }
}

/// A single syscall event under the standard wrap (logging, ring-3
/// permission, audit) steps as the bare event when the context claims
/// ring 3.
proof fn lemma_wrap_syscall(e: SyscallEvent, mws: Seq<MiddlewareRef>, m: Map<
    Seq<char>,
    ContextValue,
>)
    requires
        mws.len() == 3,
        mws[0] is Logging,
        mws[1] matches MiddlewareRef::Permission(p) && p.required_ring == 3,
        mws[2] is Audit,
        spec_get_u32(m, "ring"@) == Some(3u32),
    ensures
        run_wrapped(e, mws, 0, m) == e.spec_step(m),
{
    assert(3u32 & 0xFF == 3) by (bit_vector);
    assert(run_wrapped(e, mws, 3, m) == e.spec_step(m));
    assert(run_wrapped(e, mws, 2, m) == run_wrapped(e, mws, 3, m));
    assert(run_wrapped(e, mws, 1, m) == run_wrapped(e, mws, 2, m));
    assert(run_wrapped(e, mws, 0, m) == run_wrapped(e, mws, 1, m));
}

/// Handle a system call.
///
/// Builds the context from the parameter block (ring 3, as the interrupt
/// entry saw it), the current pid and the uptime; selects the event by
/// number (an unknown number selects the always-failing event); runs the
/// Strict chain; and returns the result word, all-ones when the chain
/// failed.
#[verifier::rlimit(100)]
pub fn handle_syscall(params: SyscallParams, current_pid: u32, uptime_ms: u32) -> (r: u32)
    ensures
        r == spec_syscall_result(params, current_pid, uptime_ms),
{
    let mut context = EventContext::new();
    context.set_u32("syscall_number", params.number.code());
    context.set_u32("arg1", params.arg1);
    context.set_u32("arg2", params.arg2);
    context.set_u32("arg3", params.arg3);
    context.set_u32("arg4", params.arg4);
    context.set_u32("arg5", params.arg5);
    context.set_u32("pid", current_pid);
    context.set_u32("uptime", uptime_ms);
    context.set_u32("ring", 3);

    let event = match params.number {
        SyscallNumber::Exit => SyscallEvent::Exit,
        SyscallNumber::Read => SyscallEvent::Read,
        SyscallNumber::Write => SyscallEvent::Write,
        SyscallNumber::GetPid => SyscallEvent::GetPid,
        SyscallNumber::Yield => SyscallEvent::Yield,
        SyscallNumber::Sleep => SyscallEvent::Sleep,
        SyscallNumber::Time => SyscallEvent::Time,
        _ => SyscallEvent::Unknown,
    };
    let ghost ev = spec_event_for(params.number);

    let chain = EventChain::<SyscallEvent>::new().middleware(
        MiddlewareRef::Logging(LoggingMiddleware::new()),
    ).middleware(MiddlewareRef::Permission(PermissionMiddleware::user_allowed())).middleware(
        MiddlewareRef::Audit(AuditMiddleware::new()),
    ).event(event).with_fault_tolerance(FaultToleranceMode::Strict);

    proof {
        reveal_strlit("syscall_number");
        reveal_strlit("arg1");
        reveal_strlit("arg2");
        reveal_strlit("arg3");
        reveal_strlit("arg4");
        reveal_strlit("arg5");
        reveal_strlit("pid");
        reveal_strlit("uptime");
        reveal_strlit("ring");
        reveal_strlit("result");
        reveal_strlit("result64");
        assert("arg1"@[3] != "arg2"@[3]);
        assert("arg1"@[3] != "arg3"@[3]);
        assert("arg1"@[3] != "arg4"@[3]);
        assert("arg1"@[3] != "arg5"@[3]);
        assert("arg1"@[0] != "ring"@[0]);
        assert("arg2"@[3] != "arg3"@[3]);
        assert("arg2"@[3] != "arg4"@[3]);
        assert("arg2"@[3] != "arg5"@[3]);
        assert("arg2"@[0] != "ring"@[0]);
        assert("arg3"@[3] != "arg4"@[3]);
        assert("arg3"@[3] != "arg5"@[3]);
        assert("arg3"@[0] != "ring"@[0]);
        assert("arg4"@[3] != "arg5"@[3]);
        assert("arg4"@[0] != "ring"@[0]);
        assert("arg5"@[0] != "ring"@[0]);
        assert("result"@[0] != "uptime"@[0]);
        let m = context@;
        assert(spec_get_u32(m, "ring"@) == Some(3u32));
        assert(spec_get_u32(m, "arg1"@) == Some(params.arg1));
        assert(spec_get_u32(m, "arg3"@) == Some(params.arg3));
        assert(spec_get_u32(m, "pid"@) == Some(current_pid));
        assert(spec_get_u32(m, "uptime"@) == Some(uptime_ms));
        lemma_wrap_syscall(ev, chain.middleware_model(), m);
        let evs = seq![ev];
        assert(evs[0] == ev);
        assert(evs.skip(1) =~= Seq::<SyscallEvent>::empty());
        let step = ev.spec_step(m);
        if step.1 is Success {
            assert(chain_model(
                evs.skip(1),
                chain.middleware_model(),
                FaultToleranceMode::Strict,
                step.0,
            ).success);
        }
    }
    let result = chain.execute(&mut context);

    if result.success {
        match context.get_u32("result") {
            Some(v) => v,
            None => 0,
        }
    } else {
        u32::MAX
    }
}

} // verus!

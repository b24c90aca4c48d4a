//! Window-manager EventChain: discrete window lifecycle transitions
//! (create, destroy, focus, z-order, move, resize) validated through a
//! Strict chain before the desktop mutates anything.
//!
//! Each transition is dispatched as its own one-event chain wrapped in
//! logging and audit middleware; the dispatcher's boolean gates the actual
//! mutation, and its contract says exactly which arguments pass.

use vstd::prelude::*;
use crate::chain::{
    chain_model,
    ChainableEvent,
    EventChain,
    FaultToleranceMode,
    run_wrapped,
};
use crate::context::{ctx_set, spec_get_u32, ContextValue, EventContext};
use crate::event_result::{EventResult, OutcomeModel, trunc_msg};
use crate::middleware::{FocusPolicyMiddleware, LoggingMiddleware, MiddlewareRef, WmAuditMiddleware};

verus! {

/// Window event type code: create
pub const WM_EVENT_WINDOW_CREATE: u32 = 1;

/// Window event type code: destroy
pub const WM_EVENT_WINDOW_DESTROY: u32 = 2;

/// Window event type code: focus change
pub const WM_EVENT_FOCUS_CHANGE: u32 = 3;

/// Window event type code: z-order change
pub const WM_EVENT_Z_ORDER_CHANGE: u32 = 4;

/// Window event type code: move
pub const WM_EVENT_WINDOW_MOVE: u32 = 5;

/// Window event type code: resize
pub const WM_EVENT_WINDOW_RESIZE: u32 = 6;

/// Z-order direction code: bring to front
pub const Z_BRING_TO_FRONT: u32 = 1;

/// Z-order direction code: send to back
pub const Z_SEND_TO_BACK: u32 = 2;

/// Z-order direction code: one step up
pub const Z_MOVE_UP: u32 = 3;

/// Z-order direction code: one step down
pub const Z_MOVE_DOWN: u32 = 4;

/// The `u32` stored under `k`, or `d` where none is.
pub open spec fn u32_or(m: Map<Seq<char>, ContextValue>, k: Seq<char>, d: u32) -> u32 {
    match spec_get_u32(m, k) {
        Some(v) => v,
        None => d,
    }
}

/// Window creation event: validates the requested bounds; the dispatcher
/// allocates the slot only after this passes.
pub struct WindowCreateEvent;

/// Window destruction event: validates the id.
pub struct WindowDestroyEvent;

/// Focus change event: a cleared focus or any new id is accepted.
pub struct FocusChangeEvent;

/// Z-order change event: validates the direction code.
pub struct ZOrderChangeEvent;

/// Window move completion event: records old and new position for audit.
pub struct WindowMoveEvent;

/// Window resize completion event: enforces the minimum size.
pub struct WindowResizeEvent;

/// The window-manager event alphabet.
pub enum WmEvent {
    Create(WindowCreateEvent),
    Destroy(WindowDestroyEvent),
    Focus(FocusChangeEvent),
    ZOrder(ZOrderChangeEvent),
    Move(WindowMoveEvent),
    Resize(WindowResizeEvent),
}

impl ChainableEvent for WmEvent {
    open spec fn spec_name(&self) -> Seq<char> {
        match self {
            WmEvent::Create(_) => "wm_window_create"@,
            WmEvent::Destroy(_) => "wm_window_destroy"@,
            WmEvent::Focus(_) => "wm_focus_change"@,
            WmEvent::ZOrder(_) => "wm_z_order_change"@,
            WmEvent::Move(_) => "wm_window_move"@,
            WmEvent::Resize(_) => "wm_window_resize"@,
        }
    }

    open spec fn spec_step(&self, m: Map<Seq<char>, ContextValue>) -> (
        Map<Seq<char>, ContextValue>,
        OutcomeModel,
    ) {
        match self {
            WmEvent::Create(_) => {
                let width = u32_or(m, "wm_width"@, 400);
                let height = u32_or(m, "wm_height"@, 300);
                if width < 100 || height < 50 {
                    (m, OutcomeModel::Failure(trunc_msg("Window too small"@)))
                } else if width > 2000 || height > 2000 {
                    (m, OutcomeModel::Failure(trunc_msg("Window too large"@)))
                } else {
                    (ctx_set(m, "wm_success"@, ContextValue::Bool(true)), OutcomeModel::Success)
                }
            },
            WmEvent::Destroy(_) => {
                match spec_get_u32(m, "wm_win_id"@) {
                    None => (m, OutcomeModel::Failure(trunc_msg("No window ID specified"@))),
                    Some(id) => if id == 0 {
                        (m, OutcomeModel::Failure(trunc_msg("Invalid window ID"@)))
                    } else {
                        (
                            ctx_set(m, "wm_success"@, ContextValue::Bool(true)),
                            OutcomeModel::Success,
                        )
                    },
                }
            },
            WmEvent::Focus(_) => {
                (ctx_set(m, "wm_success"@, ContextValue::Bool(true)), OutcomeModel::Success)
            },
            WmEvent::ZOrder(_) => {
                match spec_get_u32(m, "wm_win_id"@) {
                    None => (m, OutcomeModel::Failure(trunc_msg("No window ID specified"@))),
                    Some(_) => {
                        let direction = u32_or(m, "wm_z_dir"@, Z_BRING_TO_FRONT);
                        if direction < 1 || direction > 4 {
                            (m, OutcomeModel::Failure(trunc_msg("Invalid z-order direction"@)))
                        } else {
                            (
                                ctx_set(m, "wm_success"@, ContextValue::Bool(true)),
                                OutcomeModel::Success,
                            )
                        }
                    },
                }
            },
            WmEvent::Move(_) => {
                match spec_get_u32(m, "wm_win_id"@) {
                    None => (m, OutcomeModel::Failure(trunc_msg("No window ID specified"@))),
                    Some(_) => if spec_get_u32(m, "wm_new_x"@) is None || spec_get_u32(
                        m,
                        "wm_new_y"@,
                    ) is None {
                        (m, OutcomeModel::Failure(trunc_msg("No new position specified"@)))
                    } else {
                        (
                            ctx_set(m, "wm_success"@, ContextValue::Bool(true)),
                            OutcomeModel::Success,
                        )
                    },
                }
            },
            WmEvent::Resize(_) => {
                match spec_get_u32(m, "wm_win_id"@) {
                    None => (m, OutcomeModel::Failure(trunc_msg("No window ID specified"@))),
                    Some(_) => {
                        let new_width = u32_or(m, "wm_new_w"@, 100);
                        let new_height = u32_or(m, "wm_new_h"@, 50);
                        if new_width < 100 || new_height < 50 {
                            (m, OutcomeModel::Failure(trunc_msg("Window too small"@)))
                        } else {
                            (
                                ctx_set(m, "wm_success"@, ContextValue::Bool(true)),
                                OutcomeModel::Success,
                            )
                        }
                    },
                }
            },
        }
    }

    fn execute(&self, context: &mut EventContext) -> (r: EventResult<()>) {
        match self {
            WmEvent::Create(_) => {
                let width = match context.get_u32("wm_width") {
                    Some(v) => v,
                    None => 400,
                };
                let height = match context.get_u32("wm_height") {
                    Some(v) => v,
                    None => 300,
                };
                if width < 100 || height < 50 {
                    return EventResult::failure("Window too small");
                }
                if width > 2000 || height > 2000 {
                    return EventResult::failure("Window too large");
                }
                context.set_bool("wm_success", true);
                EventResult::success(())
            },
            WmEvent::Destroy(_) => {
                let window_id = match context.get_u32("wm_win_id") {
                    Some(id) => id,
                    None => {
                        return EventResult::failure("No window ID specified");
                    },
                };
                if window_id == 0 {
                    return EventResult::failure("Invalid window ID");
                }
                context.set_bool("wm_success", true);
                EventResult::success(())
            },
            WmEvent::Focus(_) => {
                context.set_bool("wm_success", true);
                EventResult::success(())
            },
            WmEvent::ZOrder(_) => {
                match context.get_u32("wm_win_id") {
                    Some(_) => {},
                    None => {
                        return EventResult::failure("No window ID specified");
                    },
                }
                let direction = match context.get_u32("wm_z_dir") {
                    Some(d) => d,
                    None => Z_BRING_TO_FRONT,
                };
                if direction < 1 || direction > 4 {
                    return EventResult::failure("Invalid z-order direction");
                }
                context.set_bool("wm_success", true);
                EventResult::success(())
            },
            WmEvent::Move(_) => {
                match context.get_u32("wm_win_id") {
                    Some(_) => {},
                    None => {
                        return EventResult::failure("No window ID specified");
                    },
                }
                if context.get_u32("wm_new_x").is_none() || context.get_u32(
                    "wm_new_y",
                ).is_none() {
                    return EventResult::failure("No new position specified");
                }
                context.set_bool("wm_success", true);
                EventResult::success(())
            },
            WmEvent::Resize(_) => {
                match context.get_u32("wm_win_id") {
                    Some(_) => {},
                    None => {
                        return EventResult::failure("No window ID specified");
                    },
                }
                let new_width = match context.get_u32("wm_new_w") {
                    Some(v) => v,
                    None => 100,
                };
                let new_height = match context.get_u32("wm_new_h") {
                    Some(v) => v,
                    None => 50,
                };
                if new_width < 100 || new_height < 50 {
                    return EventResult::failure("Window too small");
                }
                context.set_bool("wm_success", true);
                EventResult::success(())
            },
        }
    }

    fn name(&self) -> (n: &'static str) {
        match self {
            WmEvent::Create(_) => "wm_window_create",
            WmEvent::Destroy(_) => "wm_window_destroy",
            WmEvent::Focus(_) => "wm_focus_change",
            WmEvent::ZOrder(_) => "wm_z_order_change",
            WmEvent::Move(_) => "wm_window_move",
            WmEvent::Resize(_) => "wm_window_resize",
        }
    }
}

/// A single event under the standard wrap of logging and audit middleware
/// steps exactly as the bare event does.
proof fn lemma_wrap_logging_audit(e: WmEvent, mws: Seq<MiddlewareRef>, m: Map<
    Seq<char>,
    ContextValue,
>)
    requires
        mws.len() == 2,
        mws[0] is Logging,
        mws[1] is WmAudit,
    ensures
        run_wrapped(e, mws, 0, m) == e.spec_step(m),
{
    assert(run_wrapped(e, mws, 2, m) == e.spec_step(m));
    assert(run_wrapped(e, mws, 1, m) == run_wrapped(e, mws, 2, m));
    assert(run_wrapped(e, mws, 0, m) == run_wrapped(e, mws, 1, m));
}

/// A single event under the wrap of logging, focus-policy and audit
/// middleware steps exactly as the bare event does: all three pass
/// through.
proof fn lemma_wrap_focus_stack(e: WmEvent, mws: Seq<MiddlewareRef>, m: Map<
    Seq<char>,
    ContextValue,
>)
    requires
        mws.len() == 3,
        mws[0] is Logging,
        mws[1] is FocusPolicy,
        mws[2] is WmAudit,
    ensures
        run_wrapped(e, mws, 0, m) == e.spec_step(m),
{
    assert(run_wrapped(e, mws, 3, m) == e.spec_step(m));
    assert(run_wrapped(e, mws, 2, m) == run_wrapped(e, mws, 3, m));
    assert(run_wrapped(e, mws, 1, m) == run_wrapped(e, mws, 2, m));
    assert(run_wrapped(e, mws, 0, m) == run_wrapped(e, mws, 1, m));
}

/// The verdict of the one-event Strict chain under the focus middleware
/// stack: pass exactly when the event's step succeeds.
proof fn lemma_single_strict_focus(e: WmEvent, mws: Seq<MiddlewareRef>, m: Map<
    Seq<char>,
    ContextValue,
>)
    requires
        mws.len() == 3,
        mws[0] is Logging,
        mws[1] is FocusPolicy,
        mws[2] is WmAudit,
    ensures
        chain_model(seq![e], mws, FaultToleranceMode::Strict, m).success == (e.spec_step(m).1
            is Success),
{
    lemma_wrap_focus_stack(e, mws, m);
    let evs = seq![e];
    assert(evs[0] == e);
    assert(evs.skip(1) =~= Seq::<WmEvent>::empty());
    let step = e.spec_step(m);
    match step.1 {
        OutcomeModel::Success => {
            assert(chain_model(evs.skip(1), mws, FaultToleranceMode::Strict, step.0).success);
        },
        OutcomeModel::Failure(_) => {},
        OutcomeModel::MiddlewareFailure(_) => {},
    }
}

/// The verdict of the one-event Strict chain: pass exactly when the
/// event's step succeeds.
proof fn lemma_single_strict(e: WmEvent, mws: Seq<MiddlewareRef>, m: Map<Seq<char>, ContextValue>)
    requires
        mws.len() == 2,
        mws[0] is Logging,
        mws[1] is WmAudit,
    ensures
        chain_model(seq![e], mws, FaultToleranceMode::Strict, m).success == (e.spec_step(m).1
            is Success),
{
    lemma_wrap_logging_audit(e, mws, m);
    let evs = seq![e];
    assert(evs[0] == e);
    assert(evs.skip(1) =~= Seq::<WmEvent>::empty());
    let step = e.spec_step(m);
    match step.1 {
        OutcomeModel::Success => {
            assert(chain_model(evs.skip(1), mws, FaultToleranceMode::Strict, step.0).success);
        },
        OutcomeModel::Failure(_) => {},
        OutcomeModel::MiddlewareFailure(_) => {},
    }
}

/// Window Manager EventChain dispatchers.
///
/// The desktop calls these to gate each discrete transition; the boolean
/// says whether the mutation may proceed.
pub struct WmEventDispatcher;

impl WmEventDispatcher {
    /// Dispatch a window creation event.  Returns true exactly when the
    /// requested size is acceptable: 100..=2000 wide, 50..=2000 high.
    pub fn dispatch_create(x: i32, y: i32, width: u32, height: u32) -> (r: bool)
        ensures
            r == (100 <= width <= 2000 && 50 <= height <= 2000),
    {
        let mut context = EventContext::new();
        context.set_u32("wm_event", WM_EVENT_WINDOW_CREATE);
        context.set_u32("wm_x", x as u32);
        context.set_u32("wm_y", y as u32);
        context.set_u32("wm_width", width);
        context.set_u32("wm_height", height);

        let chain = EventChain::<WmEvent>::new().middleware(
            MiddlewareRef::Logging(LoggingMiddleware::new()),
        ).middleware(MiddlewareRef::WmAudit(WmAuditMiddleware::new())).event(
            WmEvent::Create(WindowCreateEvent),
        ).with_fault_tolerance(FaultToleranceMode::Strict);

        proof {
            reveal_strlit("wm_event");
            reveal_strlit("wm_x");
            reveal_strlit("wm_y");
            reveal_strlit("wm_width");
            reveal_strlit("wm_height");
            let m = context@;
            assert(spec_get_u32(m, "wm_width"@) == Some(width));
            assert(spec_get_u32(m, "wm_height"@) == Some(height));
            lemma_single_strict(WmEvent::Create(WindowCreateEvent), chain.middleware_model(), m);
        }
        let result = chain.execute(&mut context);
        result.success
    }

    /// Dispatch a window destruction event.  Returns true exactly when
    /// the id is valid (non-zero).
    pub fn dispatch_destroy(window_id: u32) -> (r: bool)
        ensures
            r == (window_id != 0),
    {
        let mut context = EventContext::new();
        context.set_u32("wm_event", WM_EVENT_WINDOW_DESTROY);
        context.set_u32("wm_win_id", window_id);

        let chain = EventChain::<WmEvent>::new().middleware(
            MiddlewareRef::Logging(LoggingMiddleware::new()),
        ).middleware(MiddlewareRef::WmAudit(WmAuditMiddleware::new())).event(
            WmEvent::Destroy(WindowDestroyEvent),
        ).with_fault_tolerance(FaultToleranceMode::Strict);

        proof {
            reveal_strlit("wm_event");
            reveal_strlit("wm_win_id");
            let m = context@;
            assert(spec_get_u32(m, "wm_win_id"@) == Some(window_id));
            lemma_single_strict(WmEvent::Destroy(WindowDestroyEvent), chain.middleware_model(), m);
        }
        let result = chain.execute(&mut context);
        result.success
    }

    /// Dispatch a focus change event.  A cleared focus and any new id are
    /// both accepted.
    pub fn dispatch_focus_change(old_focus: Option<u32>, new_focus: Option<u32>) -> (r: bool)
        ensures
            r == true,
    {
        let mut context = EventContext::new();
        context.set_u32("wm_event", WM_EVENT_FOCUS_CHANGE);
        match old_focus {
            Some(o) => {
                context.set_u32("wm_old_focus", o);
            },
            None => {},
        }
        match new_focus {
            Some(n) => {
                context.set_u32("wm_new_focus", n);
            },
            None => {},
        }

        let chain = EventChain::<WmEvent>::new().middleware(
            MiddlewareRef::Logging(LoggingMiddleware::new()),
        ).middleware(MiddlewareRef::FocusPolicy(FocusPolicyMiddleware::new())).middleware(
            MiddlewareRef::WmAudit(WmAuditMiddleware::new()),
        ).event(WmEvent::Focus(FocusChangeEvent)).with_fault_tolerance(FaultToleranceMode::Strict);

        proof {
            lemma_single_strict_focus(WmEvent::Focus(FocusChangeEvent), chain.middleware_model(),
                context@);
        }
        let result = chain.execute(&mut context);
        result.success
    }

    /// Dispatch a z-order change event.  Returns true exactly when the
    /// direction code is one of the four known directions.
    pub fn dispatch_z_order_change(window_id: u32, direction: u32) -> (r: bool)
        ensures
            r == (1 <= direction <= 4),
    {
        let mut context = EventContext::new();
        context.set_u32("wm_event", WM_EVENT_Z_ORDER_CHANGE);
        context.set_u32("wm_win_id", window_id);
        context.set_u32("wm_z_dir", direction);

        let chain = EventChain::<WmEvent>::new().middleware(
            MiddlewareRef::Logging(LoggingMiddleware::new()),
        ).middleware(MiddlewareRef::WmAudit(WmAuditMiddleware::new())).event(
            WmEvent::ZOrder(ZOrderChangeEvent),
        ).with_fault_tolerance(FaultToleranceMode::Strict);

        proof {
            reveal_strlit("wm_event");
            reveal_strlit("wm_win_id");
            reveal_strlit("wm_z_dir");
            let m = context@;
            assert(spec_get_u32(m, "wm_win_id"@) == Some(window_id));
            assert(spec_get_u32(m, "wm_z_dir"@) == Some(direction));
            lemma_single_strict(WmEvent::ZOrder(ZOrderChangeEvent), chain.middleware_model(), m);
        }
        let result = chain.execute(&mut context);
        result.success
    }

    /// Dispatch a window move completion event, for audit.  With both new
    /// coordinates supplied it always passes.
    #[verifier::rlimit(60)]
    pub fn dispatch_move(window_id: u32, old_x: i32, old_y: i32, new_x: i32, new_y: i32) -> (r:
        bool)
        ensures
            r == (window_id != 0 || true) && r == true,
    {
        let mut context = EventContext::new();
        context.set_u32("wm_event", WM_EVENT_WINDOW_MOVE);
        context.set_u32("wm_win_id", window_id);
        context.set_u32("wm_old_x", old_x as u32);
        context.set_u32("wm_old_y", old_y as u32);
        context.set_u32("wm_new_x", new_x as u32);
        context.set_u32("wm_new_y", new_y as u32);

        let chain = EventChain::<WmEvent>::new().middleware(
            MiddlewareRef::Logging(LoggingMiddleware::new()),
        ).middleware(MiddlewareRef::WmAudit(WmAuditMiddleware::new())).event(
            WmEvent::Move(WindowMoveEvent),
        ).with_fault_tolerance(FaultToleranceMode::Strict);

        proof {
            reveal_strlit("wm_event");
            reveal_strlit("wm_win_id");
            reveal_strlit("wm_old_x");
            reveal_strlit("wm_old_y");
            reveal_strlit("wm_new_x");
            reveal_strlit("wm_new_y");
            assert("wm_event"@[3] != "wm_old_x"@[3]);
            assert("wm_event"@[3] != "wm_old_y"@[3]);
            assert("wm_event"@[3] != "wm_new_x"@[3]);
            assert("wm_event"@[3] != "wm_new_y"@[3]);
            assert("wm_old_x"@[7] != "wm_old_y"@[7]);
            assert("wm_old_x"@[3] != "wm_new_x"@[3]);
            assert("wm_old_x"@[3] != "wm_new_y"@[3]);
            assert("wm_old_y"@[3] != "wm_new_x"@[3]);
            assert("wm_old_y"@[3] != "wm_new_y"@[3]);
            assert("wm_new_x"@[7] != "wm_new_y"@[7]);
            let m = context@;
            assert(spec_get_u32(m, "wm_win_id"@) == Some(window_id));
            assert(spec_get_u32(m, "wm_new_x"@) == Some(new_x as u32));
            assert(spec_get_u32(m, "wm_new_y"@) == Some(new_y as u32));
            lemma_single_strict(WmEvent::Move(WindowMoveEvent), chain.middleware_model(), m);
        }
        let result = chain.execute(&mut context);
        result.success
    }

    /// Dispatch a window resize completion event.  Returns true exactly
    /// when the new size honours the minimum.
    #[verifier::rlimit(60)]
    pub fn dispatch_resize(window_id: u32, old_w: u32, old_h: u32, new_w: u32, new_h: u32) -> (r:
        bool)
        ensures
            r == (new_w >= 100 && new_h >= 50),
    {
        let mut context = EventContext::new();
        context.set_u32("wm_event", WM_EVENT_WINDOW_RESIZE);
        context.set_u32("wm_win_id", window_id);
        context.set_u32("wm_old_w", old_w);
        context.set_u32("wm_old_h", old_h);
        context.set_u32("wm_new_w", new_w);
        context.set_u32("wm_new_h", new_h);

        let chain = EventChain::<WmEvent>::new().middleware(
            MiddlewareRef::Logging(LoggingMiddleware::new()),
        ).middleware(MiddlewareRef::WmAudit(WmAuditMiddleware::new())).event(
            WmEvent::Resize(WindowResizeEvent),
        ).with_fault_tolerance(FaultToleranceMode::Strict);

        proof {
            reveal_strlit("wm_event");
            reveal_strlit("wm_win_id");
            reveal_strlit("wm_old_w");
            reveal_strlit("wm_old_h");
            reveal_strlit("wm_new_w");
            reveal_strlit("wm_new_h");
            assert("wm_event"@[3] != "wm_old_w"@[3]);
            assert("wm_event"@[3] != "wm_old_h"@[3]);
            assert("wm_event"@[3] != "wm_new_w"@[3]);
            assert("wm_event"@[3] != "wm_new_h"@[3]);
            assert("wm_old_w"@[7] != "wm_old_h"@[7]);
            assert("wm_old_w"@[3] != "wm_new_w"@[3]);
            assert("wm_old_w"@[3] != "wm_new_h"@[3]);
            assert("wm_old_h"@[3] != "wm_new_w"@[3]);
            assert("wm_old_h"@[3] != "wm_new_h"@[3]);
            assert("wm_new_w"@[7] != "wm_new_h"@[7]);
            let m = context@;
            assert(spec_get_u32(m, "wm_win_id"@) == Some(window_id));
            assert(spec_get_u32(m, "wm_new_w"@) == Some(new_w));
            assert(spec_get_u32(m, "wm_new_h"@) == Some(new_h));
            lemma_single_strict(WmEvent::Resize(WindowResizeEvent), chain.middleware_model(), m);
        }
        let result = chain.execute(&mut context);
        result.success
    }
}

} // verus!

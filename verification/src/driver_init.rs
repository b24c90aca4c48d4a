//! Driver bring-up EventChain: probe the native display controller, fall
//! back to VESA, initialise the framebuffer view, then the pointing device
//! with its own fallback, then the keyboard — under BestEffort tolerance,
//! where a missing device is recoverable and an infrastructure error is
//! not.
//!
//! The hardware answers (whether the PCI probe found the controller,
//! whether the touchpad identified itself) are read by the caller's port
//! and MMIO code and handed in as plain values; the chain's own work — the
//! fallback policy and the canonical framebuffer keys — is verified.

use vstd::prelude::*;
use crate::chain::{
    chain_model,
    ChainableEvent,
    EventChain,
    FaultToleranceMode,
    run_wrapped,
};
use crate::context::{ctx_set, spec_get_bool, spec_get_u32, ContextValue, EventContext};
use crate::event_result::{EventResult, OutcomeModel, trunc_msg};
use crate::middleware::{DependencyMiddleware, LoggingMiddleware, MiddlewareRef};

verus! {

/// GPU type code: unknown
pub const GPU_TYPE_UNKNOWN: u32 = 0;

/// GPU type code: native ATI Rage path
pub const GPU_TYPE_ATI_RAGE: u32 = 1;

/// GPU type code: VESA linear framebuffer
pub const GPU_TYPE_VESA: u32 = 2;

/// GPU type code: VGA text
pub const GPU_TYPE_VGA_TEXT: u32 = 3;

/// Input type code: unknown
pub const INPUT_TYPE_UNKNOWN: u32 = 0;

/// Input type code: Synaptics touchpad
pub const INPUT_TYPE_SYNAPTICS: u32 = 1;

/// Input type code: plain PS/2 protocol on a Synaptics device
pub const INPUT_TYPE_PS2_VIA_SYNAPTICS: u32 = 2;

/// Input type code: PS/2 mouse
pub const INPUT_TYPE_PS2_MOUSE: u32 = 3;

/// Input type code: keyboard only
pub const INPUT_TYPE_KEYBOARD_ONLY: u32 = 4;

/// What a successful native GPU probe reported.
#[derive(Clone, Copy, Debug, PartialEq, Eq, Structural)]
pub struct GpuProbe {
    pub fb_addr: u32,
    pub width: u32,
    pub height: u32,
    pub bpp: u32,
    pub pitch: u32,
    pub hw_cursor: bool,
}

/// The driver bring-up event alphabet.  The hardware outcomes ride in the
/// probe events as plain values.
pub enum DriverEvent {
    /// PCI probe and mode set of the native controller, or its failure
    AtiRageProbe(Option<GpuProbe>),
    /// VESA fallback from the boot-info parameters
    VesaFallback,
    /// Publish the canonical framebuffer keys and screen dimensions
    FramebufferInit,
    /// Touchpad bring-up: identified as Synaptics, as plain PS/2, or failed
    SynapticsInit(Option<bool>),
    /// Plain PS/2 mouse fallback
    Ps2MouseInit,
    /// Keyboard marker
    KeyboardInit,
}

impl ChainableEvent for DriverEvent {
    open spec fn spec_name(&self) -> Seq<char> {
        match self {
            DriverEvent::AtiRageProbe(_) => "ati_rage_probe"@,
            DriverEvent::VesaFallback => "vesa_fallback"@,
            DriverEvent::FramebufferInit => "framebuffer_init"@,
            DriverEvent::SynapticsInit(_) => "synaptics_init"@,
            DriverEvent::Ps2MouseInit => "ps2_mouse_init"@,
            DriverEvent::KeyboardInit => "keyboard_init"@,
        }
    }

    open spec fn spec_step(&self, m: Map<Seq<char>, ContextValue>) -> (
        Map<Seq<char>, ContextValue>,
        OutcomeModel,
    ) {
        match self {
            DriverEvent::AtiRageProbe(outcome) => {
                match outcome {
                    Some(g) => {
                        let m1 = ctx_set(m, "gpu_init"@, ContextValue::Bool(true));
                        let m2 = ctx_set(m1, "gpu_type"@, ContextValue::U32(GPU_TYPE_ATI_RAGE));
                        let m3 = ctx_set(m2, "fb_addr"@, ContextValue::U32(g.fb_addr));
                        let m4 = ctx_set(m3, "fb_width"@, ContextValue::U32(g.width));
                        let m5 = ctx_set(m4, "fb_height"@, ContextValue::U32(g.height));
                        let m6 = ctx_set(m5, "fb_bpp"@, ContextValue::U32(g.bpp));
                        let m7 = ctx_set(m6, "fb_pitch"@, ContextValue::U32(g.pitch));
                        let m8 = ctx_set(m7, "hw_cursor"@, ContextValue::Bool(g.hw_cursor));
                        (m8, OutcomeModel::Success)
                    },
                    None => (
                        m,
                        OutcomeModel::Failure(
                            trunc_msg("ATI Rage Mobility P not found on PCI bus"@),
                        ),
                    ),
                }
            },
            DriverEvent::VesaFallback => {
                if spec_get_bool(m, "gpu_init"@) == Some(true) {
                    (m, OutcomeModel::Success)
                } else if spec_get_u32(m, "vesa_addr"@) is None {
                    (m, OutcomeModel::Failure(trunc_msg("No VESA framebuffer"@)))
                } else if spec_get_u32(m, "vesa_w"@) is None {
                    (m, OutcomeModel::Failure(trunc_msg("No VESA width"@)))
                } else if spec_get_u32(m, "vesa_h"@) is None {
                    (m, OutcomeModel::Failure(trunc_msg("No VESA height"@)))
                } else if spec_get_u32(m, "vesa_bpp"@) is None {
                    (m, OutcomeModel::Failure(trunc_msg("No VESA bpp"@)))
                } else if spec_get_u32(m, "vesa_pitch"@) is None {
                    (m, OutcomeModel::Failure(trunc_msg("No VESA pitch"@)))
                } else {
                    let fb = spec_get_u32(m, "vesa_addr"@)->0;
                    let w = spec_get_u32(m, "vesa_w"@)->0;
                    let h = spec_get_u32(m, "vesa_h"@)->0;
                    let bpp = spec_get_u32(m, "vesa_bpp"@)->0;
                    let pitch = spec_get_u32(m, "vesa_pitch"@)->0;
                    let m1 = ctx_set(m, "gpu_init"@, ContextValue::Bool(true));
                    let m2 = ctx_set(m1, "gpu_type"@, ContextValue::U32(GPU_TYPE_VESA));
                    let m3 = ctx_set(m2, "fb_addr"@, ContextValue::U32(fb));
                    let m4 = ctx_set(m3, "fb_width"@, ContextValue::U32(w));
                    let m5 = ctx_set(m4, "fb_height"@, ContextValue::U32(h));
                    let m6 = ctx_set(m5, "fb_bpp"@, ContextValue::U32(bpp));
                    let m7 = ctx_set(m6, "fb_pitch"@, ContextValue::U32(pitch));
                    let m8 = ctx_set(m7, "hw_cursor"@, ContextValue::Bool(false));
                    (m8, OutcomeModel::Success)
                }
            },
            DriverEvent::FramebufferInit => {
                if spec_get_u32(m, "fb_addr"@) is None {
                    (m, OutcomeModel::Failure(trunc_msg("No framebuffer address"@)))
                } else if spec_get_u32(m, "fb_width"@) is None {
                    (m, OutcomeModel::Failure(trunc_msg("No framebuffer width"@)))
                } else if spec_get_u32(m, "fb_height"@) is None {
                    (m, OutcomeModel::Failure(trunc_msg("No framebuffer height"@)))
                } else if spec_get_u32(m, "fb_bpp"@) is None {
                    (m, OutcomeModel::Failure(trunc_msg("No framebuffer bpp"@)))
                } else if spec_get_u32(m, "fb_pitch"@) is None {
                    (m, OutcomeModel::Failure(trunc_msg("No framebuffer pitch"@)))
                } else {
                    let w = spec_get_u32(m, "fb_width"@)->0;
                    let h = spec_get_u32(m, "fb_height"@)->0;
                    let m1 = ctx_set(m, "scr_width"@, ContextValue::U32(w));
                    let m2 = ctx_set(m1, "scr_height"@, ContextValue::U32(h));
                    (m2, OutcomeModel::Success)
                }
            },
            DriverEvent::SynapticsInit(outcome) => {
                if spec_get_bool(m, "input_init"@) == Some(true) {
                    (m, OutcomeModel::Success)
                } else {
                    match outcome {
                        Some(is_synaptics) => {
                            let m1 = ctx_set(m, "input_init"@, ContextValue::Bool(true));
                            let m2 = ctx_set(
                                m1,
                                "input_type"@,
                                ContextValue::U32(
                                    if *is_synaptics {
                                        INPUT_TYPE_SYNAPTICS
                                    } else {
                                        INPUT_TYPE_PS2_VIA_SYNAPTICS
                                    },
                                ),
                            );
                            (m2, OutcomeModel::Success)
                        },
                        None => (m, OutcomeModel::Failure(trunc_msg("PS/2 read timeout"@))),
                    }
                }
            },
            DriverEvent::Ps2MouseInit => {
                if spec_get_bool(m, "input_init"@) == Some(true) {
                    (m, OutcomeModel::Success)
                } else {
                    let m1 = ctx_set(m, "input_init"@, ContextValue::Bool(true));
                    let m2 = ctx_set(m1, "input_type"@, ContextValue::U32(INPUT_TYPE_PS2_MOUSE));
                    (m2, OutcomeModel::Success)
                }
            },
            DriverEvent::KeyboardInit => {
                (ctx_set(m, "kb_init"@, ContextValue::Bool(true)), OutcomeModel::Success)
            },
        }
    }

    fn execute(&self, context: &mut EventContext) -> (r: EventResult<()>) {
        match self {
            DriverEvent::AtiRageProbe(outcome) => {
                match outcome {
                    Some(g) => {
                        context.set_bool("gpu_init", true);
                        context.set_u32("gpu_type", GPU_TYPE_ATI_RAGE);
                        context.set_u32("fb_addr", g.fb_addr);
                        context.set_u32("fb_width", g.width);
                        context.set_u32("fb_height", g.height);
                        context.set_u32("fb_bpp", g.bpp);
                        context.set_u32("fb_pitch", g.pitch);
                        context.set_bool("hw_cursor", g.hw_cursor);
                        EventResult::success(())
                    },
                    None => EventResult::failure("ATI Rage Mobility P not found on PCI bus"),
                }
            },
            DriverEvent::VesaFallback => {
                let already = match context.get_bool("gpu_init") {
                    Some(v) => v,
                    None => false,
                };
                if already {
                    return EventResult::success(());
                }
                let fb = match context.get_u32("vesa_addr") {
                    Some(v) => v,
                    None => {
                        return EventResult::failure("No VESA framebuffer");
                    },
                };
                let w = match context.get_u32("vesa_w") {
                    Some(v) => v,
                    None => {
                        return EventResult::failure("No VESA width");
                    },
                };
                let h = match context.get_u32("vesa_h") {
                    Some(v) => v,
                    None => {
                        return EventResult::failure("No VESA height");
                    },
                };
                let bpp = match context.get_u32("vesa_bpp") {
                    Some(v) => v,
                    None => {
                        return EventResult::failure("No VESA bpp");
                    },
                };
                let pitch = match context.get_u32("vesa_pitch") {
                    Some(v) => v,
                    None => {
                        return EventResult::failure("No VESA pitch");
                    },
                };
                context.set_bool("gpu_init", true);
                context.set_u32("gpu_type", GPU_TYPE_VESA);
                context.set_u32("fb_addr", fb);
                context.set_u32("fb_width", w);
                context.set_u32("fb_height", h);
                context.set_u32("fb_bpp", bpp);
                context.set_u32("fb_pitch", pitch);
                context.set_bool("hw_cursor", false);
                EventResult::success(())
            },
            DriverEvent::FramebufferInit => {
                match context.get_u32("fb_addr") {
                    Some(_) => {},
                    None => {
                        return EventResult::failure("No framebuffer address");
                    },
                }
                let w = match context.get_u32("fb_width") {
                    Some(v) => v,
                    None => {
                        return EventResult::failure("No framebuffer width");
                    },
                };
                let h = match context.get_u32("fb_height") {
                    Some(v) => v,
                    None => {
                        return EventResult::failure("No framebuffer height");
                    },
                };
                match context.get_u32("fb_bpp") {
                    Some(_) => {},
                    None => {
                        return EventResult::failure("No framebuffer bpp");
                    },
                }
                match context.get_u32("fb_pitch") {
                    Some(_) => {},
                    None => {
                        return EventResult::failure("No framebuffer pitch");
                    },
                }
                context.set_u32("scr_width", w);
                context.set_u32("scr_height", h);
                EventResult::success(())
            },
            DriverEvent::SynapticsInit(outcome) => {
                let already = match context.get_bool("input_init") {
                    Some(v) => v,
                    None => false,
                };
                if already {
                    return EventResult::success(());
                }
                match outcome {
                    Some(is_synaptics) => {
                        context.set_bool("input_init", true);
                        context.set_u32(
                            "input_type",
                            if *is_synaptics {
                                INPUT_TYPE_SYNAPTICS
                            } else {
                                INPUT_TYPE_PS2_VIA_SYNAPTICS
                            },
                        );
                        EventResult::success(())
                    },
                    None => EventResult::failure("PS/2 read timeout"),
                }
            },
            DriverEvent::Ps2MouseInit => {
                let already = match context.get_bool("input_init") {
                    Some(v) => v,
                    None => false,
                };
                if already {
                    return EventResult::success(());
                }
                context.set_bool("input_init", true);
                context.set_u32("input_type", INPUT_TYPE_PS2_MOUSE);
                EventResult::success(())
            },
            DriverEvent::KeyboardInit => {
                context.set_bool("kb_init", true);
                EventResult::success(())
            },
        }
    }

    fn name(&self) -> (n: &'static str) {
        match self {
            DriverEvent::AtiRageProbe(_) => "ati_rage_probe",
            DriverEvent::VesaFallback => "vesa_fallback",
            DriverEvent::FramebufferInit => "framebuffer_init",
            DriverEvent::SynapticsInit(_) => "synaptics_init",
            DriverEvent::Ps2MouseInit => "ps2_mouse_init",
            DriverEvent::KeyboardInit => "keyboard_init",
        }
    }
}

/// Result of driver initialization.
pub struct DriverInitResult {
    pub fb_addr: u32,
    pub width: u32,
    pub height: u32,
    pub bpp: u32,
    pub pitch: u32,
    pub gpu_type: u32,
    pub hw_cursor: bool,
    pub input_type: u32,
    pub failures: Vec<&'static str>,
    pub failure_count: usize,
}

impl DriverInitResult {
    /// Check if using the native display path.
    pub fn is_ati_rage(&self) -> (r: bool)
        ensures
            r == (self.gpu_type == GPU_TYPE_ATI_RAGE),
    {
        self.gpu_type == GPU_TYPE_ATI_RAGE
    }

    /// Check if the pointing device is a Synaptics touchpad (in either
    /// protocol).
    pub fn is_synaptics(&self) -> (r: bool)
        ensures
            r == (self.input_type == INPUT_TYPE_SYNAPTICS || self.input_type
                == INPUT_TYPE_PS2_VIA_SYNAPTICS),
    {
        self.input_type == INPUT_TYPE_SYNAPTICS || self.input_type == INPUT_TYPE_PS2_VIA_SYNAPTICS
    }

    /// The GPU type, for display.
    pub fn gpu_type_str(&self) -> (r: &'static str)
        ensures
            self.gpu_type == GPU_TYPE_ATI_RAGE ==> r@ == "ATI Rage Mobility P"@,
            self.gpu_type == GPU_TYPE_VESA ==> r@ == "VESA"@,
    {
        if self.gpu_type == GPU_TYPE_ATI_RAGE {
            "ATI Rage Mobility P"
        } else if self.gpu_type == GPU_TYPE_VESA {
            "VESA"
        } else if self.gpu_type == GPU_TYPE_VGA_TEXT {
            "VGA Text"
        } else {
            "Unknown"
        }
    }

    /// The input type, for display.
    pub fn input_type_str(&self) -> (r: &'static str)
        ensures
            self.input_type == INPUT_TYPE_SYNAPTICS ==> r@ == "Synaptics Touchpad"@,
            self.input_type == INPUT_TYPE_PS2_MOUSE ==> r@ == "PS/2 Mouse"@,
    {
        if self.input_type == INPUT_TYPE_SYNAPTICS {
            "Synaptics Touchpad"
        } else if self.input_type == INPUT_TYPE_PS2_VIA_SYNAPTICS {
            "PS/2 Mouse (via Synaptics)"
        } else if self.input_type == INPUT_TYPE_PS2_MOUSE {
            "PS/2 Mouse"
        } else if self.input_type == INPUT_TYPE_KEYBOARD_ONLY {
            "Keyboard Only"
        } else {
            "Unknown"
        }
    }
}

/// Initialize all drivers through the BestEffort chain.
///
/// `gpu` carries what the PCI probe and mode set reported (absent when no
/// native controller answered); `touchpad` carries the touchpad bring-up
/// outcome (whether it gave the Synaptics signature, or absent when the
/// device never answered).  The verified chain decides the fallbacks: the
/// native path wins when present, else the VESA parameters become the
/// canonical framebuffer; the touchpad wins when it answered, else the
/// plain PS/2 mouse.
pub fn init_all_drivers(
    vesa_fb_addr: u32,
    vesa_width: u32,
    vesa_height: u32,
    vesa_bpp: u32,
    vesa_pitch: u32,
    gpu: Option<GpuProbe>,
    touchpad: Option<bool>,
) -> (r: DriverInitResult)
    ensures
        ({
            match gpu {
                Some(g) => {
                    &&& r.gpu_type == GPU_TYPE_ATI_RAGE
                    &&& r.fb_addr == g.fb_addr
                    &&& r.width == g.width
                    &&& r.height == g.height
                    &&& r.bpp == g.bpp
                    &&& r.pitch == g.pitch
                    &&& r.hw_cursor == g.hw_cursor
                },
                None => {
                    &&& r.gpu_type == GPU_TYPE_VESA
                    &&& r.fb_addr == vesa_fb_addr
                    &&& r.width == vesa_width
                    &&& r.height == vesa_height
                    &&& r.bpp == vesa_bpp
                    &&& r.pitch == vesa_pitch
                    &&& r.hw_cursor == false
                },
            }
        }),
        r.input_type == (match touchpad {
            Some(true) => INPUT_TYPE_SYNAPTICS,
            Some(false) => INPUT_TYPE_PS2_VIA_SYNAPTICS,
            None => INPUT_TYPE_PS2_MOUSE,
        }),
        r.failure_count == (if gpu is Some {
            0int
        } else {
            1int
        }) + (if touchpad is Some {
            0int
        } else {
            1int
        }),
        r.failure_count == r.failures@.len(),
        gpu is None ==> r.failures@[0]@ == "ati_rage_probe"@,
        touchpad is None ==> r.failures@[r.failures@.len() - 1]@ == "synaptics_init"@,
{
    let mut context = EventContext::new();
    context.set_u32("vesa_addr", vesa_fb_addr);
    context.set_u32("vesa_w", vesa_width);
    context.set_u32("vesa_h", vesa_height);
    context.set_u32("vesa_bpp", vesa_bpp);
    context.set_u32("vesa_pitch", vesa_pitch);

    let chain = EventChain::<DriverEvent>::new().middleware(
        MiddlewareRef::Logging(LoggingMiddleware::new()),
    ).middleware(MiddlewareRef::Dependency(DependencyMiddleware::new())).event(
        DriverEvent::AtiRageProbe(gpu),
    ).event(DriverEvent::VesaFallback).event(DriverEvent::FramebufferInit).event(
        DriverEvent::SynapticsInit(touchpad),
    ).event(DriverEvent::Ps2MouseInit).event(DriverEvent::KeyboardInit).with_fault_tolerance(
        FaultToleranceMode::BestEffort,
    );

    proof {
        reveal_strlit("vesa_addr");
        reveal_strlit("vesa_w");
        reveal_strlit("vesa_h");
        reveal_strlit("vesa_bpp");
        reveal_strlit("vesa_pitch");
        reveal_strlit("gpu_init");
        reveal_strlit("gpu_type");
        reveal_strlit("fb_addr");
        reveal_strlit("fb_width");
        reveal_strlit("fb_height");
        reveal_strlit("fb_bpp");
        reveal_strlit("fb_pitch");
        reveal_strlit("hw_cursor");
        reveal_strlit("scr_width");
        reveal_strlit("scr_height");
        reveal_strlit("input_init");
        reveal_strlit("input_type");
        reveal_strlit("kb_init");
        assert("vesa_w"@[5] != "vesa_h"@[5]);
        assert("fb_bpp"@[0] != "vesa_w"@[0]);
        assert("fb_bpp"@[0] != "vesa_h"@[0]);
        assert("gpu_init"@[0] != "vesa_bpp"@[0]);
        assert("gpu_type"@[0] != "vesa_bpp"@[0]);
        assert("fb_width"@[0] != "vesa_bpp"@[0]);
        assert("fb_pitch"@[0] != "vesa_bpp"@[0]);
        assert("fb_height"@[0] != "vesa_addr"@[0]);
        assert("scr_width"@[0] != "vesa_addr"@[0]);
        assert("hw_cursor"@[0] != "vesa_addr"@[0]);
        assert("scr_height"@[0] != "vesa_pitch"@[0]);
        assert("input_init"@[0] != "vesa_pitch"@[0]);
        assert("input_type"@[0] != "vesa_pitch"@[0]);
        lemma_driver_chain(chain.events_model(), chain.middleware_model(), context@, vesa_fb_addr,
            vesa_width, vesa_height, vesa_bpp, vesa_pitch, gpu, touchpad);
    }
    let result = chain.execute(&mut context);

    let mut failures: Vec<&'static str> = Vec::new();
    let fl = result.failures();
    let n = fl.len();
    let mut i: usize = 0;
    while i < n
        invariant
            i <= n,
            n == fl@.len(),
            failures@.len() == i,
            forall|j: int| 0 <= j < i ==> (#[trigger] failures@[j])@ == fl@[j].model().name,
        decreases n - i,
    {
        failures.push(fl[i].event_name);
        i += 1;
    }
    let failure_count = failures.len();

    DriverInitResult {
        fb_addr: match context.get_u32("fb_addr") {
            Some(v) => v,
            None => vesa_fb_addr,
        },
        width: match context.get_u32("fb_width") {
            Some(v) => v,
            None => vesa_width,
        },
        height: match context.get_u32("fb_height") {
            Some(v) => v,
            None => vesa_height,
        },
        bpp: match context.get_u32("fb_bpp") {
            Some(v) => v,
            None => vesa_bpp,
        },
        pitch: match context.get_u32("fb_pitch") {
            Some(v) => v,
            None => vesa_pitch,
        },
        gpu_type: match context.get_u32("gpu_type") {
            Some(v) => v,
            None => GPU_TYPE_UNKNOWN,
        },
        hw_cursor: match context.get_bool("hw_cursor") {
            Some(v) => v,
            None => false,
        },
        input_type: match context.get_u32("input_type") {
            Some(v) => v,
            None => INPUT_TYPE_UNKNOWN,
        },
        failures,
        failure_count,
    }
}

/// Evaluate the driver chain's fold: the canonical keys it leaves in the
/// context and the failures it records, for every combination of hardware
/// answers.
#[verifier::rlimit(100)]
proof fn lemma_driver_chain(
    events: Seq<DriverEvent>,
    mws: Seq<MiddlewareRef>,
    m0: Map<Seq<char>, ContextValue>,
    vesa_fb_addr: u32,
    vesa_width: u32,
    vesa_height: u32,
    vesa_bpp: u32,
    vesa_pitch: u32,
    gpu: Option<GpuProbe>,
    touchpad: Option<bool>,
)
    requires
        events.len() == 6,
        events[0] == DriverEvent::AtiRageProbe(gpu),
        events[1] == DriverEvent::VesaFallback,
        events[2] == DriverEvent::FramebufferInit,
        events[3] == DriverEvent::SynapticsInit(touchpad),
        events[4] == DriverEvent::Ps2MouseInit,
        events[5] == DriverEvent::KeyboardInit,
        mws.len() == 2,
        mws[0] is Logging,
        mws[1] is Dependency,
        m0.dom().finite(),
        m0.dom().len() == 5,
        spec_get_u32(m0, "vesa_addr"@) == Some(vesa_fb_addr),
        spec_get_u32(m0, "vesa_w"@) == Some(vesa_width),
        spec_get_u32(m0, "vesa_h"@) == Some(vesa_height),
        spec_get_u32(m0, "vesa_bpp"@) == Some(vesa_bpp),
        spec_get_u32(m0, "vesa_pitch"@) == Some(vesa_pitch),
        !m0.contains_key("gpu_init"@),
        !m0.contains_key("gpu_type"@),
        !m0.contains_key("fb_addr"@),
        !m0.contains_key("fb_width"@),
        !m0.contains_key("fb_height"@),
        !m0.contains_key("fb_bpp"@),
        !m0.contains_key("fb_pitch"@),
        !m0.contains_key("hw_cursor"@),
        !m0.contains_key("scr_width"@),
        !m0.contains_key("scr_height"@),
        !m0.contains_key("input_init"@),
        !m0.contains_key("input_type"@),
        !m0.contains_key("kb_init"@),
    ensures
        ({
            let model = chain_model(events, mws, FaultToleranceMode::BestEffort, m0);
            &&& model.success == true
            &&& (match gpu {
                Some(g) => {
                    &&& spec_get_u32(model.ctx, "gpu_type"@) == Some(GPU_TYPE_ATI_RAGE)
                    &&& spec_get_u32(model.ctx, "fb_addr"@) == Some(g.fb_addr)
                    &&& spec_get_u32(model.ctx, "fb_width"@) == Some(g.width)
                    &&& spec_get_u32(model.ctx, "fb_height"@) == Some(g.height)
                    &&& spec_get_u32(model.ctx, "fb_bpp"@) == Some(g.bpp)
                    &&& spec_get_u32(model.ctx, "fb_pitch"@) == Some(g.pitch)
                    &&& spec_get_bool(model.ctx, "hw_cursor"@) == Some(g.hw_cursor)
                },
                None => {
                    &&& spec_get_u32(model.ctx, "gpu_type"@) == Some(GPU_TYPE_VESA)
                    &&& spec_get_u32(model.ctx, "fb_addr"@) == Some(vesa_fb_addr)
                    &&& spec_get_u32(model.ctx, "fb_width"@) == Some(vesa_width)
                    &&& spec_get_u32(model.ctx, "fb_height"@) == Some(vesa_height)
                    &&& spec_get_u32(model.ctx, "fb_bpp"@) == Some(vesa_bpp)
                    &&& spec_get_u32(model.ctx, "fb_pitch"@) == Some(vesa_pitch)
                    &&& spec_get_bool(model.ctx, "hw_cursor"@) == Some(false)
                },
            })
            &&& spec_get_u32(model.ctx, "input_type"@) == Some(
                match touchpad {
                    Some(true) => INPUT_TYPE_SYNAPTICS,
                    Some(false) => INPUT_TYPE_PS2_VIA_SYNAPTICS,
                    None => INPUT_TYPE_PS2_MOUSE,
                },
            )
            &&& model.failures.len() == (if gpu is Some {
                0int
            } else {
                1int
            }) + (if touchpad is Some {
                0int
            } else {
                1int
            })
            &&& (gpu is None ==> model.failures[0].name == "ati_rage_probe"@)
            &&& (touchpad is None ==> model.failures[model.failures.len() - 1].name
                == "synaptics_init"@)
            &&& spec_get_u32(model.ctx, "scr_width"@) == Some(
                match gpu {
                    Some(g) => g.width,
                    None => vesa_width,
                },
            )
            &&& spec_get_u32(model.ctx, "scr_height"@) == Some(
                match gpu {
                    Some(g) => g.height,
                    None => vesa_height,
                },
            )
        }),
{
    reveal_strlit("vesa_addr");
    reveal_strlit("vesa_w");
    reveal_strlit("vesa_h");
    reveal_strlit("vesa_bpp");
    reveal_strlit("vesa_pitch");
    reveal_strlit("gpu_init");
    reveal_strlit("gpu_type");
    reveal_strlit("fb_addr");
    reveal_strlit("fb_width");
    reveal_strlit("fb_height");
    reveal_strlit("fb_bpp");
    reveal_strlit("fb_pitch");
    reveal_strlit("hw_cursor");
    reveal_strlit("scr_width");
    reveal_strlit("scr_height");
    reveal_strlit("input_init");
    reveal_strlit("input_type");
    reveal_strlit("kb_init");
    reveal_strlit("ati_rage_probe");
    reveal_strlit("vesa_fallback");
    reveal_strlit("framebuffer_init");
    reveal_strlit("synaptics_init");
    reveal_strlit("ps2_mouse_init");
    reveal_strlit("keyboard_init");

    assert("vesa_w"@[5] != "vesa_h"@[5]);
    assert("vesa_w"@[0] != "fb_bpp"@[0]);
    assert("vesa_h"@[0] != "fb_bpp"@[0]);
    assert("fb_addr"@[0] != "kb_init"@[0]);
    assert("vesa_bpp"@[0] != "gpu_init"@[0]);
    assert("vesa_bpp"@[0] != "gpu_type"@[0]);
    assert("vesa_bpp"@[0] != "fb_width"@[0]);
    assert("vesa_bpp"@[0] != "fb_pitch"@[0]);
    assert("gpu_init"@[4] != "gpu_type"@[4]);
    assert("gpu_init"@[0] != "fb_width"@[0]);
    assert("gpu_init"@[0] != "fb_pitch"@[0]);
    assert("gpu_type"@[0] != "fb_width"@[0]);
    assert("gpu_type"@[0] != "fb_pitch"@[0]);
    assert("fb_width"@[3] != "fb_pitch"@[3]);
    assert("vesa_addr"@[0] != "fb_height"@[0]);
    assert("vesa_addr"@[0] != "scr_width"@[0]);
    assert("vesa_addr"@[0] != "hw_cursor"@[0]);
    assert("fb_height"@[0] != "scr_width"@[0]);
    assert("fb_height"@[0] != "hw_cursor"@[0]);
    assert("scr_width"@[0] != "hw_cursor"@[0]);
    assert("vesa_pitch"@[0] != "scr_height"@[0]);
    assert("vesa_pitch"@[0] != "input_init"@[0]);
    assert("vesa_pitch"@[0] != "input_type"@[0]);
    assert("scr_height"@[0] != "input_init"@[0]);
    assert("scr_height"@[0] != "input_type"@[0]);
    assert("input_init"@[6] != "input_type"@[6]);
    assert("ati_rage_probe"@[0] != "synaptics_init"@[0]);
    assert("ati_rage_probe"@[0] != "ps2_mouse_init"@[0]);
    assert("synaptics_init"@[0] != "ps2_mouse_init"@[0]);

    let mode = FaultToleranceMode::BestEffort;
    let e0 = events[0];
    let e1 = events[1];
    let e2 = events[2];
    let e3 = events[3];
    let e4 = events[4];
    let e5 = events[5];

    // event 0: the probe
    lemma_wrap_driver(e0, mws, m0);
    let s0 = e0.spec_step(m0);
    let m1 = s0.0;

    // event 1: the fallback
    lemma_wrap_driver(e1, mws, m1);
    let s1 = e1.spec_step(m1);
    let m2 = s1.0;
    assert(s1.1 is Success);

    // event 2: the framebuffer keys
    lemma_wrap_driver(e2, mws, m2);
    let s2 = e2.spec_step(m2);
    let m3 = s2.0;
    assert(s2.1 is Success);
    assert(spec_get_u32(m3, "scr_width"@) is Some);

    // event 3: the touchpad
    lemma_wrap_driver(e3, mws, m3);
    let s3 = e3.spec_step(m3);
    let m4 = s3.0;

    // event 4: the mouse fallback
    assert(spec_get_u32(m4, "scr_width"@) is Some);
    lemma_wrap_driver(e4, mws, m4);
    let s4 = e4.spec_step(m4);
    let m5 = s4.0;
    assert(s4.1 is Success);

    // event 5: the keyboard marker
    lemma_wrap_driver(e5, mws, m5);
    let s5 = e5.spec_step(m5);
    let m6 = s5.0;
    assert(s5.1 is Success);

    // fold it all together
    assert(events.skip(1)[0] == e1 && events.skip(1).skip(1) =~= events.skip(2));
    assert(events.skip(2)[0] == e2 && events.skip(2).skip(1) =~= events.skip(3));
    assert(events.skip(3)[0] == e3 && events.skip(3).skip(1) =~= events.skip(4));
    assert(events.skip(4)[0] == e4 && events.skip(4).skip(1) =~= events.skip(5));
    assert(events.skip(5)[0] == e5 && events.skip(5).skip(1) =~= events.skip(6));
    assert(events.skip(6) =~= Seq::<DriverEvent>::empty());

    let base = chain_model(events.skip(6), mws, mode, m6);
    assert(events.skip(6).len() == 0);
    assert(base.ctx == m6 && base.success == true && base.failures =~= Seq::<
        crate::event_result::FailureModel,
    >::empty());
    let model5 = chain_model(events.skip(5), mws, mode, m5);
    assert(model5.ctx == m6 && model5.success && model5.failures =~= Seq::<
        crate::event_result::FailureModel,
    >::empty());
    let model4 = chain_model(events.skip(4), mws, mode, m4);
    assert(model4.ctx == m6 && model4.success && model4.failures =~= model5.failures);
    let model3 = chain_model(events.skip(3), mws, mode, m3);
    let model2 = chain_model(events.skip(2), mws, mode, m2);
    let model1 = chain_model(events.skip(1), mws, mode, m1);
    let model0 = chain_model(events, mws, mode, m0);
    match touchpad {
        Some(_) => {
            assert(s3.1 is Success);
            assert(model3.ctx == m6 && model3.success && model3.failures =~= model4.failures);
        },
        None => {
            assert(s3.1 is Failure);
            assert(model3.ctx == m6 && model3.success);
            assert(model3.failures =~= seq![
                crate::event_result::FailureModel {
                    name: "synaptics_init"@,
                    msg: trunc_msg("PS/2 read timeout"@),
                    is_mw: false,
                },
            ] + model4.failures);
        },
    }
    assert(model2.ctx == m6 && model2.success && model2.failures =~= model3.failures);
    assert(model1.ctx == m6 && model1.success && model1.failures =~= model2.failures);
    match gpu {
        Some(_) => {
            assert(s0.1 is Success);
            assert(model0.ctx == m6 && model0.success && model0.failures =~= model1.failures);
        },
        None => {
            assert(s0.1 is Failure);
            assert(model0.ctx == m6 && model0.success);
            assert(model0.failures =~= seq![
                crate::event_result::FailureModel {
                    name: "ati_rage_probe"@,
                    msg: trunc_msg("ATI Rage Mobility P not found on PCI bus"@),
                    is_mw: false,
                },
            ] + model1.failures);
        },
    }
}

/// One driver event under logging and dependency middleware steps as the
/// bare event when the screen dimensions its dependency check wants are
/// present (or it is not an input event).
proof fn lemma_wrap_driver(e: DriverEvent, mws: Seq<MiddlewareRef>, m: Map<Seq<char>, ContextValue>)
    requires
        mws.len() == 2,
        mws[0] is Logging,
        mws[1] is Dependency,
        (e.spec_name() == "synaptics_init"@ || e.spec_name() == "ps2_mouse_init"@)
            ==> spec_get_u32(m, "scr_width"@) is Some,
    ensures
        run_wrapped(e, mws, 0, m) == e.spec_step(m),
{
    assert(run_wrapped(e, mws, 2, m) == e.spec_step(m));
    assert(run_wrapped(e, mws, 1, m) == run_wrapped(e, mws, 2, m));
    assert(run_wrapped(e, mws, 0, m) == run_wrapped(e, mws, 1, m));
}

} // verus!

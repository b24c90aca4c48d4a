//! Interrupt descriptor table entries and their placement: 256 vectors,
//! CPU exceptions first, remapped IRQs at 32-47, the user-accessible
//! breakpoint and overflow traps at DPL 3, everything else at DPL 0.

use vstd::prelude::*;
use crate::gdt::SEL_KERNEL_CODE;

verus! {

/// Number of IDT entries on this architecture
pub const IDT_ENTRIES: usize = 256;

/// IDT entry (interrupt gate descriptor).
#[derive(Clone, Copy, Debug, PartialEq, Eq, Structural)]
pub struct IdtEntry {
    /// Offset bits 0-15
    pub offset_low: u16,
    /// Segment selector
    pub selector: u16,
    /// Reserved (must be 0)
    pub reserved: u8,
    /// Gate type and attributes
    pub type_attr: u8,
    /// Offset bits 16-31
    pub offset_high: u16,
}

impl IdtEntry {
    /// Create a null/absent entry
    pub fn null() -> (r: IdtEntry)
        ensures
            r == (IdtEntry {
                offset_low: 0,
                selector: 0,
                reserved: 0,
                type_attr: 0,
                offset_high: 0,
            }),
    {
        IdtEntry { offset_low: 0, selector: 0, reserved: 0, type_attr: 0, offset_high: 0 }
    }

    /// A 32-bit interrupt gate: present, at the given privilege level.
    pub fn interrupt_gate(handler: u32, selector: u16, dpl: u8) -> (r: IdtEntry)
        ensures
            r.offset_low == handler & 0xFFFF,
            r.offset_high == (handler >> 16) & 0xFFFF,
            r.selector == selector,
            r.reserved == 0,
            r.type_attr == (0x80u8 | ((dpl & 3) << 5) as u8 | 0x0Eu8),
    {
        proof {
            assert(handler & 0xFFFF < 0x10000 && (handler >> 16) & 0xFFFF < 0x10000 && ((dpl & 3)
                << 5) < 0x100) by (bit_vector);
        }
        IdtEntry {
            offset_low: (handler & 0xFFFF) as u16,
            selector,
            reserved: 0,
            type_attr: 0x80 | (((dpl & 3) << 5) as u8) | 0x0E,
            offset_high: ((handler >> 16) & 0xFFFF) as u16,
        }
    }

    /// A 32-bit trap gate (does not mask interrupts on entry).
    pub fn trap_gate(handler: u32, selector: u16, dpl: u8) -> (r: IdtEntry)
        ensures
            r.offset_low == handler & 0xFFFF,
            r.offset_high == (handler >> 16) & 0xFFFF,
            r.selector == selector,
            r.reserved == 0,
            r.type_attr == (0x80u8 | ((dpl & 3) << 5) as u8 | 0x0Fu8),
    {
        proof {
            assert(handler & 0xFFFF < 0x10000 && (handler >> 16) & 0xFFFF < 0x10000 && ((dpl & 3)
                << 5) < 0x100) by (bit_vector);
        }
        IdtEntry {
            offset_low: (handler & 0xFFFF) as u16,
            selector,
            reserved: 0,
            type_attr: 0x80 | (((dpl & 3) << 5) as u8) | 0x0F,
            offset_high: ((handler >> 16) & 0xFFFF) as u16,
        }
    }

    /// Point an existing gate at a new handler.
    pub fn set_handler(&mut self, handler: u32)
        ensures
            final(self).offset_low == handler & 0xFFFF,
            final(self).offset_high == (handler >> 16) & 0xFFFF,
            final(self).selector == old(self).selector,
            final(self).type_attr == old(self).type_attr,
            final(self).reserved == old(self).reserved,
    {
        proof {
            assert(handler & 0xFFFF < 0x10000 && (handler >> 16) & 0xFFFF < 0x10000)
                by (bit_vector);
        }
        self.offset_low = (handler & 0xFFFF) as u16;
        self.offset_high = ((handler >> 16) & 0xFFFF) as u16;
    }
}

/// IDT pointer operand for loading the table.
#[derive(Clone, Copy, Debug, PartialEq, Eq, Structural)]
pub struct IdtPointer {
    /// Size of IDT - 1
    pub limit: u16,
    /// Linear address of IDT
    pub base: u32,
}

/// The saved register frame the common interrupt prologue builds.
#[derive(Clone, Copy, Debug, PartialEq, Eq, Structural)]
pub struct InterruptFrame {
    pub edi: u32,
    pub esi: u32,
    pub ebp: u32,
    pub esp_dummy: u32,
    pub ebx: u32,
    pub edx: u32,
    pub ecx: u32,
    pub eax: u32,
    pub interrupt_number: u32,
    pub error_code: u32,
    pub eip: u32,
    pub cs: u32,
    pub eflags: u32,
    pub user_esp: u32,
    pub user_ss: u32,
}

/// The privilege level a vector's gate admits: the user-visible debug
/// traps (breakpoint and overflow) are reachable from ring 3, everything
/// else only from ring 0.
pub open spec fn spec_gate_dpl(vector: int) -> u8 {
    if vector == 3 || vector == 4 {
        3
    } else {
        0
    }
}

/// Whether a vector gets a trap gate (the user debug traps) rather than
/// an interrupt gate.
pub open spec fn spec_gate_is_trap(vector: int) -> bool {
    vector == 3 || vector == 4
}

/// Build one exception vector's descriptor under the table's placement rules.
pub fn gate_for_exception(vector: usize, handler: u32) -> (r: IdtEntry)
    requires
        vector < 32,
    ensures
        r.selector == SEL_KERNEL_CODE,
        r.offset_low == handler & 0xFFFF,
        r.offset_high == (handler >> 16) & 0xFFFF,
        spec_gate_is_trap(vector as int) ==> r.type_attr == (0x80u8 | (3u8 << 5) as u8 | 0x0Fu8),
        !spec_gate_is_trap(vector as int) ==> r.type_attr == (0x80u8 | 0x0Eu8),
    {
    if vector == 3 || vector == 4 {
        proof {
            assert(3u8 & 3 == 3) by (bit_vector);
        }
        IdtEntry::trap_gate(handler, SEL_KERNEL_CODE, 3)
    } else {
        proof {
            assert(0u8 & 3 == 0 && (0u8 << 5) == 0) by (bit_vector);
            assert(0x80u8 | ((0u8 & 3) << 5) as u8 | 0x0Eu8 == 0x80u8 | 0x0Eu8) by (bit_vector);
        }
        IdtEntry::interrupt_gate(handler, SEL_KERNEL_CODE, 0)
    }
}

/// What the dispatcher does with an interrupt vector.
#[derive(Clone, Copy, Debug, PartialEq, Eq, Structural)]
pub enum IrqAction {
    /// A fatal CPU exception: write diagnostics and halt
    FatalException,
    /// The page-fault exception: read CR2, write diagnostics and halt
    PageFault,
    /// The timer: count the tick and acknowledge
    TimerTick,
    /// The keyboard: read the scancode, feed the state machine, acknowledge
    KeyboardByte,
    /// The pointing device: check the AUX bit, read, route, acknowledge both
    MouseByte,
    /// Any other remapped IRQ: just acknowledge
    AcknowledgeOnly,
    /// Anything else: ignore
    Ignore,
}

/// The dispatch decision for a vector, as the common handler takes it.
pub open spec fn spec_dispatch(vector: u32) -> IrqAction {
    if vector == 0 || vector == 6 || vector == 8 || vector == 13 {
        IrqAction::FatalException
    } else if vector == 14 {
        IrqAction::PageFault
    } else if vector == 32 {
        IrqAction::TimerTick
    } else if vector == 33 {
        IrqAction::KeyboardByte
    } else if vector == 44 {
        IrqAction::MouseByte
    } else if 32 <= vector <= 47 {
        IrqAction::AcknowledgeOnly
    } else {
        IrqAction::Ignore
    }
}

/// Decide what to do with an interrupt vector.  The caller performs the
/// action: port reads, EOIs and halting are its I/O.
pub fn dispatch_interrupt(vector: u32) -> (r: IrqAction)
    ensures
        r == spec_dispatch(vector),
{
    if vector == 0 || vector == 6 || vector == 8 || vector == 13 {
        IrqAction::FatalException
    } else if vector == 14 {
        IrqAction::PageFault
    } else if vector == 32 {
        IrqAction::TimerTick
    } else if vector == 33 {
        IrqAction::KeyboardByte
    } else if vector == 44 {
        IrqAction::MouseByte
    } else if vector >= 32 && vector <= 47 {
        IrqAction::AcknowledgeOnly
    } else {
        IrqAction::Ignore
    }
}

} // verus!

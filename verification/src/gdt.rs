//! Global descriptor table entries: the flat 4 GiB memory model's code and
//! data segments at rings 0 and 3, as packed 8-byte descriptors.

use vstd::prelude::*;

verus! {

/// Segment selector: kernel code
pub const SEL_KERNEL_CODE: u16 = 0x08;

/// Segment selector: kernel data
pub const SEL_KERNEL_DATA: u16 = 0x10;

/// Segment selector: user code, ring 3
pub const SEL_USER_CODE: u16 = 0x18 | 3;

/// Segment selector: user data, ring 3
pub const SEL_USER_DATA: u16 = 0x20 | 3;

/// Segment selector: task state segment
pub const SEL_TSS: u16 = 0x28;

/// GDT entry (segment descriptor): base, limit, access byte and flags
/// packed across six fields.
#[derive(Clone, Copy, Debug, PartialEq, Eq, Structural)]
pub struct GdtEntry {
    /// Limit bits 0-15
    pub limit_low: u16,
    /// Base bits 0-15
    pub base_low: u16,
    /// Base bits 16-23
    pub base_mid: u8,
    /// Access byte
    pub access: u8,
    /// Limit bits 16-19 + flags
    pub granularity: u8,
    /// Base bits 24-31
    pub base_high: u8,
}

impl GdtEntry {
    /// Create a null descriptor
    pub fn null() -> (r: GdtEntry)
        ensures
            r == (GdtEntry {
                limit_low: 0,
                base_low: 0,
                base_mid: 0,
                access: 0,
                granularity: 0,
                base_high: 0,
            }),
    {
        GdtEntry { limit_low: 0, base_low: 0, base_mid: 0, access: 0, granularity: 0, base_high: 0 }
    }

    /// Pack a descriptor from base, limit, access byte and flags nibble.
    pub fn new(base: u32, limit: u32, access: u8, flags: u8) -> (r: GdtEntry)
        requires
            flags < 16,
        ensures
            r.limit_low == limit & 0xFFFF,
            r.base_low == base & 0xFFFF,
            r.base_mid == (base >> 16) & 0xFF,
            r.access == access,
            r.granularity == ((limit >> 16) & 0x0F) as u8 | (flags << 4) as u8,
            r.base_high == (base >> 24) & 0xFF,
    {
        proof {
            assert(base & 0xFFFF < 0x10000 && (base >> 16) & 0xFF < 0x100 && (base >> 24) & 0xFF
                < 0x100 && limit & 0xFFFF < 0x10000 && (limit >> 16) & 0x0F < 0x10)
                by (bit_vector);
            assert(flags < 16 ==> (flags << 4) < 256) by (bit_vector)
                requires
                    flags < 16,
            ;
        }
        GdtEntry {
            limit_low: (limit & 0xFFFF) as u16,
            base_low: (base & 0xFFFF) as u16,
            base_mid: ((base >> 16) & 0xFF) as u8,
            access,
            granularity: ((limit >> 16) & 0x0F) as u8 | ((flags << 4) as u8),
            base_high: ((base >> 24) & 0xFF) as u8,
        }
    }

    /// The packed fields every flat segment shares.
    proof fn lemma_flat_bits()
        ensures
            0u32 & 0xFFFF == 0,
            (0u32 >> 16) & 0xFF == 0,
            (0u32 >> 24) & 0xFF == 0,
            0xFFFFFu32 & 0xFFFF == 0xFFFF,
            (0xFFFFFu32 >> 16) & 0x0F == 0x0F,
            ((0x0Cu8 << 4) as u8) == 0xC0,
            (0x0Fu8 | 0xC0u8) == 0xCF,
    {
        assert(0u32 & 0xFFFF == 0 && (0u32 >> 16) & 0xFF == 0 && (0u32 >> 24) & 0xFF == 0
            && 0xFFFFFu32 & 0xFFFF == 0xFFFF && (0xFFFFFu32 >> 16) & 0x0F == 0x0F)
            by (bit_vector);
        assert((0x0Cu8 << 4) == 0xC0 && (0x0Fu8 | 0xC0u8) == 0xCF) by (bit_vector);
    }

    /// The flat kernel code segment: base 0, 4 GiB limit with page
    /// granularity, present, ring 0, executable, readable.
    pub fn kernel_code() -> (r: GdtEntry)
        ensures
            r == GdtEntry::spec_new_flat(0x9A),
    {
        proof {
            GdtEntry::lemma_flat_bits();
        }
        GdtEntry::new(0, 0xFFFFF, 0x9A, 0x0C)
    }

    /// The flat kernel data segment: present, ring 0, writable.
    pub fn kernel_data() -> (r: GdtEntry)
        ensures
            r == GdtEntry::spec_new_flat(0x92),
    {
        proof {
            GdtEntry::lemma_flat_bits();
        }
        GdtEntry::new(0, 0xFFFFF, 0x92, 0x0C)
    }

    /// The flat user code segment at ring 3.
    pub fn user_code() -> (r: GdtEntry)
        ensures
            r == GdtEntry::spec_new_flat(0xFA),
    {
        proof {
            GdtEntry::lemma_flat_bits();
        }
        GdtEntry::new(0, 0xFFFFF, 0xFA, 0x0C)
    }

    /// The flat user data segment at ring 3.
    pub fn user_data() -> (r: GdtEntry)
        ensures
            r == GdtEntry::spec_new_flat(0xF2),
    {
        proof {
            GdtEntry::lemma_flat_bits();
        }
        GdtEntry::new(0, 0xFFFFF, 0xF2, 0x0C)
    }

    /// The packed form every flat 4 GiB segment shares: only the access
    /// byte distinguishes them.
    pub open spec fn spec_new_flat(access: u8) -> GdtEntry {
        GdtEntry {
            limit_low: 0xFFFF,
            base_low: 0,
            base_mid: 0,
            access,
            granularity: 0xCF,
            base_high: 0,
        }
    }
}

/// GDT pointer operand for loading the table: size minus one and the
/// linear address.
#[derive(Clone, Copy, Debug, PartialEq, Eq, Structural)]
pub struct GdtPointer {
    /// Size of GDT - 1
    pub limit: u16,
    /// Linear address of GDT
    pub base: u32,
}

/// The five-segment flat-model table: null, kernel code and data, user
/// code and data, and a placeholder for the TSS.
pub fn build_gdt() -> (r: Vec<GdtEntry>)
    ensures
        r@.len() == 6,
        r@[0] == (GdtEntry {
            limit_low: 0,
            base_low: 0,
            base_mid: 0,
            access: 0,
            granularity: 0,
            base_high: 0,
        }),
        r@[1] == GdtEntry::spec_new_flat(0x9A),
        r@[2] == GdtEntry::spec_new_flat(0x92),
        r@[3] == GdtEntry::spec_new_flat(0xFA),
        r@[4] == GdtEntry::spec_new_flat(0xF2),
{
    let mut gdt: Vec<GdtEntry> = Vec::new();
    gdt.push(GdtEntry::null());
    gdt.push(GdtEntry::kernel_code());
    gdt.push(GdtEntry::kernel_data());
    gdt.push(GdtEntry::user_code());
    gdt.push(GdtEntry::user_data());
    gdt.push(GdtEntry::null());
    gdt
}

} // verus!

//! Boot information: the hand-off block written by the stage-2 loader and
//! the E820 memory map it points at, decoded from their raw bytes.
//!
//! The block is little-endian: a magic word (`R`,`U`,`S`,`T`), the E820
//! map's physical address, the VESA flag, and the framebuffer parameters.
//! The E820 map is a 16-bit entry count, 4 bytes of padding, then packed
//! 24-byte entries `{base: u64, length: u64, type: u32, attrs: u32}`.

use vstd::prelude::*;

verus! {

/// Magic value: 'RUST' in little-endian
pub const BOOT_MAGIC: u32 = 0x54535552;

/// A little-endian `u32` read at `off`.
pub open spec fn le32(s: Seq<u8>, off: int) -> u32
    recommends
        0 <= off,
        off + 4 <= s.len(),
{
    (s[off] as u32) | ((s[off + 1] as u32) << 8) | ((s[off + 2] as u32) << 16) | ((s[off
        + 3] as u32) << 24)
}

/// A little-endian `u64` read at `off`.
pub open spec fn le64(s: Seq<u8>, off: int) -> u64 {
    (le32(s, off) as u64) | ((le32(s, off + 4) as u64) << 32)
}

/// Read a little-endian `u32` from a byte slice.
pub fn read_le32(data: &[u8], off: usize) -> (r: u32)
    requires
        off + 4 <= data@.len(),
    ensures
        r == le32(data@, off as int),
{
    (data[off] as u32) | ((data[off + 1] as u32) << 8) | ((data[off + 2] as u32) << 16) | ((data[off
        + 3] as u32) << 24)
}

/// Read a little-endian `u64` from a byte slice.
pub fn read_le64(data: &[u8], off: usize) -> (r: u64)
    requires
        off + 8 <= data@.len(),
    ensures
        r == le64(data@, off as int),
{
    // bind the slice length so its machine bound is in scope
    let dlen = data.len();
    let lo = read_le32(data, off);
    let hi = read_le32(data, off + 4);
    (lo as u64) | ((hi as u64) << 32)
}

/// Boot information passed from bootloader to kernel
#[derive(Clone, Copy, Debug, PartialEq, Eq, Structural)]
pub struct BootInfo {
    /// Magic number ('RUST' = 0x54535552)
    pub magic: u32,
    /// Address of E820 memory map
    pub e820_map_addr: u32,
    /// Whether VESA mode is enabled (vs VGA text)
    pub vesa_enabled: bool,
    /// Physical address of framebuffer
    pub framebuffer_addr: u32,
    /// Screen width in pixels (or columns for text mode)
    pub screen_width: u32,
    /// Screen height in pixels (or rows for text mode)
    pub screen_height: u32,
    /// Bits per pixel (or 16 for text mode = 2 bytes per cell)
    pub bits_per_pixel: u32,
    /// Pitch: bytes per scanline
    pub pitch: u32,
}

impl BootInfo {
    /// Decode the boot-info block from its raw bytes.
    pub fn from_bytes(data: &[u8]) -> (r: BootInfo)
        requires
            data@.len() >= 32,
        ensures
            r.magic == le32(data@, 0x00),
            r.e820_map_addr == le32(data@, 0x04),
            r.vesa_enabled == (le32(data@, 0x08) != 0),
            r.framebuffer_addr == le32(data@, 0x0C),
            r.screen_width == le32(data@, 0x10),
            r.screen_height == le32(data@, 0x14),
            r.bits_per_pixel == le32(data@, 0x18),
            r.pitch == le32(data@, 0x1C),
    {
        BootInfo {
            magic: read_le32(data, 0x00),
            e820_map_addr: read_le32(data, 0x04),
            vesa_enabled: read_le32(data, 0x08) != 0,
            framebuffer_addr: read_le32(data, 0x0C),
            screen_width: read_le32(data, 0x10),
            screen_height: read_le32(data, 0x14),
            bits_per_pixel: read_le32(data, 0x18),
            pitch: read_le32(data, 0x1C),
        }
    }

    /// Verify the boot magic is correct
    pub fn verify_magic(&self) -> (r: bool)
        ensures
            r == (self.magic == BOOT_MAGIC),
    {
        self.magic == BOOT_MAGIC
    }
}

/// E820 memory region types
#[derive(Clone, Copy, Debug, PartialEq, Eq, Structural)]
pub enum E820Type {
    /// Usable RAM
    Usable,
    /// Reserved by system
    Reserved,
    /// ACPI reclaimable
    AcpiReclaimable,
    /// ACPI NVS (non-volatile storage)
    AcpiNvs,
    /// Bad memory
    BadMemory,
}

/// E820 Memory Map Entry
#[derive(Clone, Copy, Debug, PartialEq, Eq, Structural)]
pub struct E820Entry {
    /// Base address of memory region
    pub base: u64,
    /// Length of memory region in bytes
    pub length: u64,
    /// Type of memory region
    pub region_type: u32,
    /// ACPI 3.0 extended attributes (may be 0)
    pub acpi_attrs: u32,
}

impl E820Entry {
    /// The region type this entry's code denotes; unknown codes count as
    /// reserved.
    pub open spec fn spec_memory_type(&self) -> E820Type {
        if self.region_type == 1 {
            E820Type::Usable
        } else if self.region_type == 3 {
            E820Type::AcpiReclaimable
        } else if self.region_type == 4 {
            E820Type::AcpiNvs
        } else if self.region_type == 5 {
            E820Type::BadMemory
        } else {
            E820Type::Reserved
        }
    }

    /// Get the memory type
    pub fn memory_type(&self) -> (r: E820Type)
        ensures
            r == self.spec_memory_type(),
    {
        match self.region_type {
            1 => E820Type::Usable,
            3 => E820Type::AcpiReclaimable,
            4 => E820Type::AcpiNvs,
            5 => E820Type::BadMemory,
            _ => E820Type::Reserved,
        }
    }

    /// Check if this region is usable RAM
    pub fn is_usable(&self) -> (r: bool)
        ensures
            r == (self.region_type == 1),
    {
        self.region_type == 1
    }

    /// Get end address of this region.  An entry whose region runs past
    /// the 64-bit address space is outside this function's contract.
    pub fn end(&self) -> (r: u64)
        requires
            self.base + self.length <= u64::MAX,
        ensures
            r == self.base + self.length,
    {
        self.base + self.length
    }
}

/// E820 Memory Map: the decoded entries.
pub struct E820Map {
    entries: Vec<E820Entry>,
}

/// The entry a 24-byte record at `off` denotes.
pub open spec fn spec_entry_at(s: Seq<u8>, off: int) -> E820Entry {
    E820Entry {
        base: le64(s, off),
        length: le64(s, off + 8),
        region_type: le32(s, off + 16),
        acpi_attrs: le32(s, off + 20),
    }
}

impl E820Map {
    /// The decoded entries.
    pub closed spec fn view(&self) -> Seq<E820Entry> {
        self.entries@
    }

    /// Decode the map from its raw bytes: a 16-bit count, 4 bytes of
    /// padding, then the packed entries.  Entries past the end of the
    /// given bytes are dropped.
    pub fn from_bytes(data: &[u8]) -> (r: E820Map)
        requires
            data@.len() >= 4,
        ensures
            ({
                let declared = (data@[0] as u32 | ((data@[1] as u32) << 8)) as int;
                let avail = (data@.len() - 4) / 24;
                let n = if declared <= avail {
                    declared
                } else {
                    avail
                };
                &&& r@.len() == n
                &&& forall|i: int| 0 <= i < n ==> r@[i] == spec_entry_at(data@, 4 + 24 * i)
            }),
    {
        let count = (data[0] as u32) | ((data[1] as u32) << 8);
        let ghost declared = count as int;
        let avail = (data.len() - 4) / 24;
        let n = if (count as usize) <= avail {
            count as usize
        } else {
            avail
        };
        let dlen = data.len();
        let mut entries: Vec<E820Entry> = Vec::new();
        let mut i: usize = 0;
        while i < n
            invariant
                i <= n,
                dlen == data@.len(),
                n <= (dlen - 4) / 24,
                dlen >= 4,
                entries@.len() == i,
                forall|j: int| 0 <= j < i ==> entries@[j] == spec_entry_at(data@, 4 + 24 * j),
            decreases n - i,
        {
            proof {
                assert(24 * (i as int) + 24 <= dlen - 4) by (nonlinear_arith)
                    requires
                        0 <= i,
                        i < n,
                        n <= (dlen - 4) / 24,
                        dlen >= 4,
                ;
            }
            let off = 4 + 24 * i;
            let entry = E820Entry {
                base: read_le64(data, off),
                length: read_le64(data, off + 8),
                region_type: read_le32(data, off + 16),
                acpi_attrs: read_le32(data, off + 20),
            };
            entries.push(entry);
            i += 1;
        }
        E820Map { entries }
    }

    /// Build a map directly from decoded entries.
    pub fn from_entries(entries: Vec<E820Entry>) -> (r: E820Map)
        ensures
            r@ == entries@,
    {
        E820Map { entries }
    }

    /// Get number of entries
    pub fn len(&self) -> (r: usize)
        ensures
            r == self@.len(),
    {
        self.entries.len()
    }

    /// Check if map is empty
    pub fn is_empty(&self) -> (r: bool)
        ensures
            r == (self@.len() == 0),
    {
        self.entries.len() == 0
    }

    /// Get entry by index
    pub fn get(&self, index: usize) -> (r: Option<E820Entry>)
        ensures
            r == (if index < self@.len() {
                Some(self@[index as int])
            } else {
                Option::<E820Entry>::None
            }),
    {
        if index < self.entries.len() {
            Some(self.entries[index])
        } else {
            None
        }
    }

    /// Get entry by index, which must be in range.
    pub fn entry_at(&self, index: usize) -> (r: E820Entry)
        requires
            index < self@.len(),
        ensures
            r == self@[index as int],
    {
        self.entries[index]
    }

    /// Iterate over all entries
    pub fn iter(&self) -> (r: E820Iterator<'_>)
        ensures
            r.entries() == self@,
            r.position() == 0,
    {
        E820Iterator { map: self, index: 0 }
    }

    /// The usable bytes among the first `n` entries.
    pub open spec fn spec_usable_upto(s: Seq<E820Entry>, n: int) -> int
        decreases n,
    {
        if n <= 0 {
            0
        } else {
            Self::spec_usable_upto(s, n - 1) + (if s[n - 1].region_type == 1 {
                s[n - 1].length as int
            } else {
                0
            })
        }
    }

    /// Calculate total usable memory in bytes.  A map whose usable bytes
    /// exceed `u64` is outside this function's contract.
    pub fn total_usable_memory(&self) -> (r: u64)
        requires
            forall|n: int|
                0 <= n <= self@.len() ==> Self::spec_usable_upto(self@, n) <= u64::MAX,
        ensures
            r == Self::spec_usable_upto(self@, self@.len() as int),
    {
        let mut sum: u64 = 0;
        let mut i: usize = 0;
        let n = self.entries.len();
        while i < n
            invariant
                i <= n,
                n == self@.len(),
                sum == Self::spec_usable_upto(self@, i as int),
                forall|m: int| 0 <= m <= self@.len() ==> Self::spec_usable_upto(self@, m)
                    <= u64::MAX,
            decreases n - i,
        {
            if self.entries[i].region_type == 1 {
                proof {
                    assert(Self::spec_usable_upto(self@, i + 1) == Self::spec_usable_upto(
                        self@,
                        i as int,
                    ) + self@[i as int].length);
                }
                sum = sum + self.entries[i].length;
            }
            i += 1;
        }
        sum
    }

    /// The highest region end among the first `n` entries.
    pub open spec fn spec_max_end_upto(s: Seq<E820Entry>, n: int) -> int
        decreases n,
    {
        if n <= 0 {
            0
        } else {
            let prev = Self::spec_max_end_upto(s, n - 1);
            let e = s[n - 1].base + s[n - 1].length;
            if e > prev {
                e
            } else {
                prev
            }
        }
    }

    /// Calculate total memory in bytes: the highest region end.  A map
    /// with a region past the 64-bit address space is outside this
    /// function's contract.
    pub fn total_memory(&self) -> (r: u64)
        requires
            forall|i: int| 0 <= i < self@.len() ==> (#[trigger] self@[i]).base + self@[i].length
                <= u64::MAX,
        ensures
            r == Self::spec_max_end_upto(self@, self@.len() as int),
    {
        let mut best: u64 = 0;
        let mut i: usize = 0;
        let n = self.entries.len();
        while i < n
            invariant
                i <= n,
                n == self@.len(),
                best == Self::spec_max_end_upto(self@, i as int),
                forall|j: int| 0 <= j < self@.len() ==> (#[trigger] self@[j]).base
                    + self@[j].length <= u64::MAX,
            decreases n - i,
        {
            let e = self.entries[i].base + self.entries[i].length;
            if e > best {
                best = e;
            }
            i += 1;
        }
        best
    }
}

/// Iterator over E820 entries
pub struct E820Iterator<'a> {
    map: &'a E820Map,
    index: usize,
}

impl<'a> E820Iterator<'a> {
    /// The entries iterated over.
    pub closed spec fn entries(&self) -> Seq<E820Entry> {
        self.map@
    }

    /// How far the iteration has come.
    pub closed spec fn position(&self) -> int {
        self.index as int
    }

    /// The next entry, advancing the position.
    pub fn next(&mut self) -> (r: Option<E820Entry>)
        ensures
            final(self).entries() == old(self).entries(),
            old(self).position() < old(self).entries().len() ==> {
                &&& r == Some(old(self).entries()[old(self).position()])
                &&& final(self).position() == old(self).position() + 1
            },
            old(self).position() >= old(self).entries().len() ==> {
                &&& r is None
                &&& final(self).position() == old(self).position()
            },
    {
        if self.index < self.map.entries.len() {
            let e = self.map.entries[self.index];
            self.index += 1;
            Some(e)
        } else {
            None
        }
    }
}

} // verus!

//! The architecture descriptor: pure data fixing pointer width and the
//! shape of each supported page-table walk.

use vstd::prelude::*;

verus! {

/// Size of a leaf translation page and of one page table, in bytes.
pub const PAGE_SIZE: u64 = 4096;

/// An instruction-set architecture tag.  It fixes pointer width and the
/// shape of the page-table walk: how many levels there are, how a virtual
/// address is cut into table indices, how wide an entry is, and at which
/// levels a large page may terminate the walk early.
#[derive(Clone, Copy, Debug, PartialEq, Eq, Structural)]
pub enum Architecture {
    X86,
    X86Pae,
    X64,
    AArch64,
}

impl Architecture {
    /// Pointer width in bits.
    pub open spec fn spec_bits(self) -> u64 {
        match self {
            Architecture::X86 => 32,
            Architecture::X86Pae => 32,
            Architecture::X64 => 64,
            Architecture::AArch64 => 64,
        }
    }

    #[verifier::when_used_as_spec(spec_bits)]
    pub fn bits(self) -> (r: u64)
        ensures
            r == self.spec_bits(),
    {
        match self {
            Architecture::X86 => 32,
            Architecture::X86Pae => 32,
            Architecture::X64 => 64,
            Architecture::AArch64 => 64,
        }
    }

    /// Width in bytes of a pointer read from memory under this
    /// architecture.
    pub open spec fn spec_ptr_bytes(self) -> u64 {
        if self.spec_bits() == 64 {
            8
        } else {
            4
        }
    }

    #[verifier::when_used_as_spec(spec_ptr_bytes)]
    pub fn ptr_bytes(self) -> (r: u64)
        ensures
            r == self.spec_ptr_bytes(),
    {
        if self.bits() == 64 {
            8
        } else {
            4
        }
    }

    pub fn page_size(self) -> (r: u64)
        ensures
            r == PAGE_SIZE,
    {
        PAGE_SIZE
    }

    /// Whether the page-table walk is implemented for this architecture.
    pub open spec fn spec_supported(self) -> bool {
        self != Architecture::AArch64
    }

    #[verifier::when_used_as_spec(spec_supported)]
    pub fn supported(self) -> (r: bool)
        ensures
            r == self.spec_supported(),
    {
        match self {
            Architecture::AArch64 => false,
            _ => true,
        }
    }

    /// Number of page-table levels, root first.
    pub open spec fn spec_levels(self) -> u64 {
        match self {
            Architecture::X86 => 2,
            Architecture::X86Pae => 3,
            Architecture::X64 => 4,
            Architecture::AArch64 => 4,
        }
    }

    #[verifier::when_used_as_spec(spec_levels)]
    pub fn levels(self) -> (r: u64)
        ensures
            r == self.spec_levels(),
    {
        match self {
            Architecture::X86 => 2,
            Architecture::X86Pae => 3,
            Architecture::X64 => 4,
            Architecture::AArch64 => 4,
        }
    }

    /// Width in bytes of one page-table entry.
    pub open spec fn spec_entry_size(self) -> u64 {
        match self {
            Architecture::X86 => 4,
            _ => 8,
        }
    }

    #[verifier::when_used_as_spec(spec_entry_size)]
    pub fn entry_size(self) -> (r: u64)
        ensures
            r == self.spec_entry_size(),
    {
        match self {
            Architecture::X86 => 4,
            _ => 8,
        }
    }

    /// The table index that `va` selects at walk level `level`
    /// (level 0 is the root table).
    pub open spec fn spec_va_index(self, level: u64, va: u64) -> u64 {
        match self {
            Architecture::X86 => if level == 0 {
                (va >> 22) & 0x3ff
            } else {
                (va >> 12) & 0x3ff
            },
            Architecture::X86Pae => if level == 0 {
                (va >> 30) & 0x3
            } else if level == 1 {
                (va >> 21) & 0x1ff
            } else {
                (va >> 12) & 0x1ff
            },
            Architecture::X64 => if level == 0 {
                (va >> 39) & 0x1ff
            } else if level == 1 {
                (va >> 30) & 0x1ff
            } else if level == 2 {
                (va >> 21) & 0x1ff
            } else {
                (va >> 12) & 0x1ff
            },
            Architecture::AArch64 => 0,
        }
    }

    #[verifier::when_used_as_spec(spec_va_index)]
    pub fn va_index(self, level: u64, va: u64) -> (r: u64)
        ensures
            r == self.spec_va_index(level, va),
    {
        match self {
            Architecture::X86 => if level == 0 {
                (va >> 22) & 0x3ff
            } else {
                (va >> 12) & 0x3ff
            },
            Architecture::X86Pae => if level == 0 {
                (va >> 30) & 0x3
            } else if level == 1 {
                (va >> 21) & 0x1ff
            } else {
                (va >> 12) & 0x1ff
            },
            Architecture::X64 => if level == 0 {
                (va >> 39) & 0x1ff
            } else if level == 1 {
                (va >> 30) & 0x1ff
            } else if level == 2 {
                (va >> 21) & 0x1ff
            } else {
                (va >> 12) & 0x1ff
            },
            Architecture::AArch64 => 0,
        }
    }

    /// Whether an entry at `level` may carry the large-page bit, ending
    /// the walk early.
    pub open spec fn spec_large_page_level(self, level: u64) -> bool {
        match self {
            Architecture::X86 => level == 0,
            Architecture::X86Pae => level == 1,
            Architecture::X64 => level == 1 || level == 2,
            Architecture::AArch64 => false,
        }
    }

    #[verifier::when_used_as_spec(spec_large_page_level)]
    pub fn large_page_level(self, level: u64) -> (r: bool)
        ensures
            r == self.spec_large_page_level(level),
    {
        match self {
            Architecture::X86 => level == 0,
            Architecture::X86Pae => level == 1,
            Architecture::X64 => level == 1 || level == 2,
            Architecture::AArch64 => false,
        }
    }

    /// Whether an entry maps anything: the low "present" bit.
    pub open spec fn spec_entry_present(self, e: u64) -> bool {
        e & 1 == 1
    }

    #[verifier::when_used_as_spec(spec_entry_present)]
    pub fn entry_present(self, e: u64) -> (r: bool)
        ensures
            r == self.spec_entry_present(e),
    {
        e & 1 == 1
    }

    /// Whether a present entry at a large-page level maps a large page
    /// (the PS bit).
    pub open spec fn spec_entry_is_large(self, e: u64) -> bool {
        e & 0x80 == 0x80
    }

    #[verifier::when_used_as_spec(spec_entry_is_large)]
    pub fn entry_is_large(self, e: u64) -> (r: bool)
        ensures
            r == self.spec_entry_is_large(e),
    {
        e & 0x80 == 0x80
    }

    /// The page-aligned physical address a non-large entry points at:
    /// the next table, or the 4 KiB leaf page at the last level.
    pub open spec fn spec_entry_base(self, e: u64) -> u64 {
        match self {
            Architecture::X86 => e & 0xffff_f000,
            _ => e & 0x000f_ffff_ffff_f000,
        }
    }

    #[verifier::when_used_as_spec(spec_entry_base)]
    pub fn entry_base(self, e: u64) -> (r: u64)
        ensures
            r == self.spec_entry_base(e),
    {
        match self {
            Architecture::X86 => e & 0xffff_f000,
            _ => e & 0x000f_ffff_ffff_f000,
        }
    }

    /// The physical base of the large page an entry at `level` maps:
    /// 4 MiB on two-level x86, 1 GiB or 2 MiB further down on the
    /// 8-byte-entry architectures.
    pub open spec fn spec_large_base(self, level: u64, e: u64) -> u64 {
        match self {
            Architecture::X86 => e & 0xffc0_0000,
            Architecture::X64 => if level == 1 {
                e & 0x000f_ffff_c000_0000
            } else {
                e & 0x000f_ffff_ffe0_0000
            },
            _ => e & 0x000f_ffff_ffe0_0000,
        }
    }

    #[verifier::when_used_as_spec(spec_large_base)]
    pub fn large_base(self, level: u64, e: u64) -> (r: u64)
        ensures
            r == self.spec_large_base(level, e),
    {
        match self {
            Architecture::X86 => e & 0xffc0_0000,
            Architecture::X64 => if level == 1 {
                e & 0x000f_ffff_c000_0000
            } else {
                e & 0x000f_ffff_ffe0_0000
            },
            _ => e & 0x000f_ffff_ffe0_0000,
        }
    }

    /// The in-page offset mask of a large page at `level`.
    pub open spec fn spec_large_offset_mask(self, level: u64) -> u64 {
        match self {
            Architecture::X86 => 0x3f_ffff,
            Architecture::X64 => if level == 1 {
                0x3fff_ffff
            } else {
                0x1f_ffff
            },
            _ => 0x1f_ffff,
        }
    }

    #[verifier::when_used_as_spec(spec_large_offset_mask)]
    pub fn large_offset_mask(self, level: u64) -> (r: u64)
        ensures
            r == self.spec_large_offset_mask(level),
    {
        match self {
            Architecture::X86 => 0x3f_ffff,
            Architecture::X64 => if level == 1 {
                0x3fff_ffff
            } else {
                0x1f_ffff
            },
            _ => 0x1f_ffff,
        }
    }

    /// Whether `va` lies inside the range this architecture can translate:
    /// the low 4 GiB for the 32-bit modes, the canonical halves for x64.
    pub open spec fn spec_va_canonical(self, va: u64) -> bool {
        match self {
            Architecture::X86 => va <= 0xffff_ffff,
            Architecture::X86Pae => va <= 0xffff_ffff,
            Architecture::X64 => va >> 47 == 0 || va >> 47 == 0x1_ffff,
            Architecture::AArch64 => false,
        }
    }

    #[verifier::when_used_as_spec(spec_va_canonical)]
    pub fn va_canonical(self, va: u64) -> (r: bool)
        ensures
            r == self.spec_va_canonical(va),
    {
        match self {
            Architecture::X86 => va <= 0xffff_ffff,
            Architecture::X86Pae => va <= 0xffff_ffff,
            Architecture::X64 => va >> 47 == 0 || va >> 47 == 0x1_ffff,
            Architecture::AArch64 => false,
        }
    }
}

/// Every table index fits within one table page: the selected entry lies
/// inside the 4 KiB table that holds it.
pub proof fn lemma_va_index_in_table(arch: Architecture, level: u64, va: u64)
    ensures
        arch.spec_va_index(level, va) * arch.spec_entry_size()
            + arch.spec_entry_size() <= 4096,
{
    let idx = arch.spec_va_index(level, va);
    match arch {
        Architecture::X86 => {
            assert((va >> 22) & 0x3ff <= 0x3ff) by (bit_vector);
            assert((va >> 12) & 0x3ff <= 0x3ff) by (bit_vector);
        },
        Architecture::X86Pae => {
            assert((va >> 30) & 0x3 <= 0x3) by (bit_vector);
            assert((va >> 21) & 0x1ff <= 0x1ff) by (bit_vector);
            assert((va >> 12) & 0x1ff <= 0x1ff) by (bit_vector);
        },
        Architecture::X64 => {
            assert((va >> 39) & 0x1ff <= 0x1ff) by (bit_vector);
            assert((va >> 30) & 0x1ff <= 0x1ff) by (bit_vector);
            assert((va >> 21) & 0x1ff <= 0x1ff) by (bit_vector);
            assert((va >> 12) & 0x1ff <= 0x1ff) by (bit_vector);
        },
        Architecture::AArch64 => {},
    }
}

/// A non-large entry's base is page-aligned.
pub proof fn lemma_entry_base_aligned(arch: Architecture, e: u64)
    ensures
        arch.spec_entry_base(e) % 4096 == 0,
        arch.spec_entry_base(e) <= e,
{
    assert((e & 0xffff_f000) % 4096 == 0 && (e & 0xffff_f000) <= e) by (bit_vector);
    assert((e & 0x000f_ffff_ffff_f000) % 4096 == 0 && (e & 0x000f_ffff_ffff_f000) <= e)
        by (bit_vector);
}

} // verus!

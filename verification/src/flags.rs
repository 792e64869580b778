//! The flag word of a container record.

use vstd::prelude::*;

verus! {

/// The payload is not meant for main flash.
pub const NOT_MAIN_FLASH: u32 = 0x0000_0001;

/// The record belongs to a file container.
pub const FILE_CONTAINER: u32 = 0x0000_1000;

/// The record carries an MD5 checksum.
pub const MD5_CHECKSUM: u32 = 0x0000_4000;

/// The record carries extension tags.
pub const EXTENSION_TAGS: u32 = 0x0000_8000;

/// Every bit that the format defines.
pub const KNOWN_FLAGS: u32 = 0x0000_D001;

/// Whether `bits` sets defined flags only.
pub open spec fn only_known(bits: u32) -> bool {
    bits & KNOWN_FLAGS == bits
}

/// A set of record flags; it never holds a bit that the format does not define.
#[derive(Clone, Copy, Debug, PartialEq, Eq, Structural)]
pub struct UF2Flags {
    bits: u32,
}

impl UF2Flags {
    #[verifier::type_invariant]
    spec fn known(self) -> bool {
        only_known(self.bits)
    }

    /// The flag word.
    pub closed spec fn view(&self) -> u32 {
        self.bits
    }

    /// The flags of `raw` that the format defines; the other bits are dropped.
    pub fn from_bits_truncate(raw: u32) -> (flags: Self)
        ensures
            flags@ == raw & KNOWN_FLAGS,
            only_known(flags@),
    {
        let bits: u32 = raw & KNOWN_FLAGS;
        assert((raw & 0x0000_D001u32) & 0x0000_D001u32 == raw & 0x0000_D001u32) by (bit_vector);
        UF2Flags { bits }
    }

    /// The flag word.
    pub fn bits(&self) -> (bits: u32)
        ensures
            bits == self@,
            only_known(bits),
    {
        proof {
            use_type_invariant(self);
        }
        self.bits
    }

    /// Whether every flag of `mask` is set.
    pub fn contains(&self, mask: u32) -> (all: bool)
        ensures
            all == (self@ & mask == mask),
    {
        self.bits & mask == mask
    }
}

} // verus!

//! The ways in which decoding a registry can fail.

use vstd::prelude::*;

verus! {

/// The word that must follow the name table.
pub const MAGIC_START: u32 = 0x12345679;

/// The word that must follow the tagged pairs.
pub const MAGIC_END: u32 = 0x87654321;

/// One of the two fixed words that mark a supported format revision.
#[derive(Debug, Clone, Copy, PartialEq, Eq, Structural)]
pub enum Sentinel {
    /// The word after the name table.
    Start,
    /// The word after the tagged pairs.
    End,
}

impl Sentinel {
    /// The value that the format puts at this sentinel's position.
    pub open spec fn spec_value(self) -> u32 {
        match self {
            Sentinel::Start => MAGIC_START,
            Sentinel::End => MAGIC_END,
        }
    }

    /// The value that the format puts at this sentinel's position.
    #[verifier::when_used_as_spec(spec_value)]
    pub fn value(self) -> (v: u32)
        ensures
            v == self.spec_value(),
    {
        match self {
            Sentinel::Start => MAGIC_START,
            Sentinel::End => MAGIC_END,
        }
    }
}

/// Why a buffer could not be decoded. Each of them ends the decode: the
/// format has no point at which reading could start again.
#[derive(Debug, Clone, Copy, PartialEq, Eq, Structural)]
pub enum DecodeError {
    /// The buffer ended in the middle of a field.
    IoTruncated,
    /// A tagged pair carried a kind tag outside 0 to 6.
    InvalidTag { tag: u32 },
    /// A sentinel position held another word than the format demands.
    SentinelMismatch { which: Sentinel, expected: u32, found: u32 },
}

} // verus!

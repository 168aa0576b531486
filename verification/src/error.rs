//! The failures that decoding reports.

use vstd::prelude::*;

verus! {

/// Why a packet was rejected.
#[derive(Clone, Copy, Debug, PartialEq, Eq, Structural)]
pub enum Error {
    /// The buffer is shorter than the format requires.
    Truncated,
    /// The ICMP checksum field does not hold the checksum of the message.
    ChecksumMismatch,
    /// The IP version field is not 4.
    UnsupportedVersion,
    /// The internet header length is under five 32-bit words.
    InvalidHeaderLength,
}

} // verus!

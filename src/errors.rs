use vstd::prelude::*;

verus! {

/// Why a frame could not be decoded or encoded.
#[derive(Debug, Clone, Copy, PartialEq, Eq, Structural)]
pub enum PacketError {
    /// The buffer is shorter than the frame it declares, or too short for the frame to build.
    Len,
    /// A sentinel byte is wrong.
    Format,
    /// The transmitted checksum disagrees with the one computed.
    Checksum,
}

} // verus!

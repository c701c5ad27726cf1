// Decoder over a mutably borrowed inbound buffer. It only reads the buffer; the
// frame layout is the one of `crate::parser`.
use crate::errors::PacketError;
use crate::parser::{
    checksum, decoded, E_CHECKSUM, END_SENTINEL, SERVICE_FIELDS_LEN,
    START_SENTINEL, S_ACTION, S_PAYLOAD_LEN, S_PAYLOAD_START,
};
use vstd::prelude::*;

verus! {

/// A frame decoder over a mutably borrowed buffer.
pub struct PacketParser {}

impl PacketParser {
    pub fn new() -> Self {
        PacketParser {  }
    }

    /// Decodes the frame at the start of `buffer`, as `crate::parser::decoded`
    /// says, and returns the action and a view of the payload. The buffer is
    /// only read.
    pub fn parse<'a>(&self, buffer: &'a mut [u8]) -> (r: Result<(u8, &'a [u8]), PacketError>)
        ensures
            final(buffer)@ == old(buffer)@,
            match r {
                Ok((action, payload)) => decoded(old(buffer)@) == Ok::<
                    (u8, Seq<u8>),
                    PacketError,
                >((action, payload@)),
                Err(e) => decoded(old(buffer)@) == Err::<(u8, Seq<u8>), PacketError>(e),
            },
    {
        if buffer.len() < SERVICE_FIELDS_LEN {
            return Err(PacketError::Len);
        }
        let payload_len = buffer[S_PAYLOAD_LEN] as usize;
        let proposed_len = SERVICE_FIELDS_LEN + payload_len;
        if proposed_len > buffer.len() {
            return Err(PacketError::Len);
        }
        let start: usize = 0;
        let end = proposed_len - 1;

        if buffer[start] != START_SENTINEL || buffer[end] != END_SENTINEL {
            return Err(PacketError::Format);
        }
        let their_checksum = buffer[end - E_CHECKSUM];
        let our_checksum = checksum(&buffer[start + 1..end - 1]);

        let view: &'a [u8] = buffer;
        if their_checksum == our_checksum {
            let payload = &view[S_PAYLOAD_START..S_PAYLOAD_START + payload_len];
            let action = view[S_ACTION];
            assert(payload@ =~= old(buffer)@.subrange(S_PAYLOAD_START as int, end - 1));
            Ok((action, payload))
        } else {
            Err(PacketError::Checksum)
        }
    }
}

} // verus!

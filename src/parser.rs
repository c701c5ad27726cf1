// Frame layout:
//
// [0]        = 0xAA (start sentinel)
// [1]        = command or status
// [2..=4]    = reserved, zero on encode
// [5]        = payload length
// [6..]      = payload
// [end - 1]  = CRC-8 over bytes 1 ..= end - 2
// [end]      = 0x55 (end sentinel)
use crate::errors::PacketError;
use vstd::prelude::*;

verus! {

pub const START_SENTINEL: u8 = 0xAA;

pub const END_SENTINEL: u8 = 0x55;

// Offsets from the start of the frame.
pub const S_ACTION: usize = 1;

pub const S_PAYLOAD_LEN: usize = 5;

pub const S_PAYLOAD_START: usize = 6;

// Offsets from the last byte of the frame.
pub const E_CHECKSUM: usize = 1;

pub const E_PAYLOAD_END: usize = 2;

/// Bytes of a frame that are not payload.
pub const SERVICE_FIELDS_LEN: usize = 8;

/// Largest payload that the one-byte length field can declare.
pub const MAX_PAYLOAD_LEN: usize = 255;

/// What the CRC-8/SMBUS algorithm (poly 0x07, init 0, no reflection, no final XOR)
/// gives for a sequence of bytes.
pub uninterp spec fn crc8_smbus(data: Seq<u8>) -> u8;

/// Relies on `crc::Crc::<u8, crc::NoTable>::checksum` built with
/// `crc::CRC_8_SMBUS`: the checksum of `data` under that algorithm, which
/// depends on the bytes alone (the table-free variant needs no table built per
/// call).
#[verifier::external_body]
pub(crate) fn checksum(data: &[u8]) -> (r: u8)
    ensures
        r == crc8_smbus(data@),
{
    crc::Crc::<u8, crc::NoTable>::new(&crc::CRC_8_SMBUS).checksum(data)
}

/// A request or a response: a command or status code and a payload borrowed
/// from a buffer that the caller owns.
#[derive(Debug, Clone, Copy, PartialEq, Eq)]
pub struct Packet<'a> {
    pub action: u8,
    pub payload: &'a [u8],
}

impl<'a> View for Packet<'a> {
    type V = (u8, Seq<u8>);

    open spec fn view(&self) -> (u8, Seq<u8>) {
        (self.action, self.payload@)
    }
}

impl<'a> Packet<'a> {
    pub fn new(action: u8, payload: &'a [u8]) -> (r: Packet<'a>)
        ensures
            r@ == (action, payload@),
    {
        Packet { action, payload }
    }

    /// Largest payload whose frame fits in `frame_capacity` bytes.
    pub fn max_payload(frame_capacity: usize) -> (r: usize)
        ensures
            r == if frame_capacity >= SERVICE_FIELDS_LEN {
                frame_capacity - SERVICE_FIELDS_LEN
            } else {
                0
            },
    {
        if frame_capacity >= SERVICE_FIELDS_LEN {
            frame_capacity - SERVICE_FIELDS_LEN
        } else {
            0
        }
    }
}

/// Action, reserved bytes, length and payload: the bytes the checksum covers.
pub open spec fn checked_body(action: u8, payload: Seq<u8>) -> Seq<u8> {
    seq![action, 0u8, 0u8, 0u8, payload.len() as u8] + payload
}

/// The frame that carries `action` and `payload`.
pub open spec fn frame_of(action: u8, payload: Seq<u8>) -> Seq<u8> {
    let body = checked_body(action, payload);
    seq![START_SENTINEL] + body + seq![crc8_smbus(body), END_SENTINEL]
}

/// A scratch buffer of `capacity` bytes after encoding `p` into it: the frame,
/// then zeros.
pub open spec fn encoded(p: (u8, Seq<u8>), capacity: nat) -> Seq<u8> {
    let frame = frame_of(p.0, p.1);
    frame + Seq::new((capacity - frame.len()) as nat, |i: int| 0u8)
}

/// Whether a payload of `payload_len` bytes can be framed in `capacity` bytes.
pub open spec fn fits(payload_len: nat, capacity: nat) -> bool {
    payload_len <= MAX_PAYLOAD_LEN && SERVICE_FIELDS_LEN + payload_len <= capacity
}

/// Total length that a buffer declares for its frame (valid from byte 5 on).
pub open spec fn declared_len(buf: Seq<u8>) -> int {
    SERVICE_FIELDS_LEN + buf[S_PAYLOAD_LEN as int]
}

/// What decoding `buf` gives: the action and the payload, or why it fails.
pub open spec fn decoded(buf: Seq<u8>) -> Result<(u8, Seq<u8>), PacketError> {
    if buf.len() < SERVICE_FIELDS_LEN || buf.len() < declared_len(buf) {
        Err(PacketError::Len)
    } else {
        let end = declared_len(buf) - 1;
        if buf[0] != START_SENTINEL || buf[end] != END_SENTINEL {
            Err(PacketError::Format)
        } else if buf[end - E_CHECKSUM] != crc8_smbus(buf.subrange(1, end - E_CHECKSUM)) {
            Err(PacketError::Checksum)
        } else {
            Ok((buf[1], buf.subrange(S_PAYLOAD_START as int, end - E_CHECKSUM)))
        }
    }
}

/// Round trip: a payload of at most 246 bytes encoded into a buffer that holds
/// its frame decodes back to the same action and payload.
pub proof fn lemma_round_trip(action: u8, payload: Seq<u8>, capacity: nat)
    requires
        payload.len() <= 246,
        SERVICE_FIELDS_LEN + payload.len() <= capacity,
    ensures
        fits(payload.len(), capacity),
        decoded(encoded((action, payload), capacity)) == Ok::<(u8, Seq<u8>), PacketError>(
            (action, payload),
        ),
{
    let buf = encoded((action, payload), capacity);
    let n = payload.len() as int;
    let body = checked_body(action, payload);
    assert(buf[S_PAYLOAD_LEN as int] == n as u8);
    assert(declared_len(buf) == SERVICE_FIELDS_LEN + n);
    assert(buf.subrange(1, 6 + n) =~= body);
    assert(buf.subrange(S_PAYLOAD_START as int, 6 + n) =~= payload);
}

/// Replacing one byte of an encoded frame among the action, the reserved bytes
/// and the payload (every checked byte but the length) leaves the length and
/// the sentinels intact: decoding fails with `Checksum` exactly when the
/// checksum of the altered bytes differs from the one sent, and with no other
/// error.
pub proof fn lemma_checked_byte_changed(
    action: u8,
    payload: Seq<u8>,
    capacity: nat,
    pos: int,
    value: u8,
)
    requires
        payload.len() <= MAX_PAYLOAD_LEN,
        SERVICE_FIELDS_LEN + payload.len() <= capacity,
        1 <= pos < S_PAYLOAD_START + payload.len(),
        pos != S_PAYLOAD_LEN,
    ensures
        ({
            let altered = encoded((action, payload), capacity).update(pos, value);
            let end = SERVICE_FIELDS_LEN + payload.len() - 1;
            decoded(altered) == if crc8_smbus(altered.subrange(1, end - E_CHECKSUM))
                == crc8_smbus(checked_body(action, payload)) {
                Ok::<(u8, Seq<u8>), PacketError>(
                    (altered[1], altered.subrange(S_PAYLOAD_START as int, end - E_CHECKSUM)),
                )
            } else {
                Err(PacketError::Checksum)
            }
        }),
{
    let n = payload.len() as int;
    let buf = encoded((action, payload), capacity);
    let altered = buf.update(pos, value);
    assert(altered[S_PAYLOAD_LEN as int] == n as u8);
    assert(declared_len(altered) == SERVICE_FIELDS_LEN + n);
    assert(altered[6 + n] == crc8_smbus(checked_body(action, payload)));
}

/// A frame whose start or end sentinel is replaced by another byte fails with
/// `Format`.
pub proof fn lemma_sentinel_changed(
    action: u8,
    payload: Seq<u8>,
    capacity: nat,
    pos: int,
    value: u8,
)
    requires
        payload.len() <= MAX_PAYLOAD_LEN,
        SERVICE_FIELDS_LEN + payload.len() <= capacity,
        (pos == 0 && value != START_SENTINEL) || (pos == SERVICE_FIELDS_LEN + payload.len() - 1
            && value != END_SENTINEL),
    ensures
        decoded(encoded((action, payload), capacity).update(pos, value)) == Err::<
            (u8, Seq<u8>),
            PacketError,
        >(PacketError::Format),
{
    let n = payload.len() as int;
    let altered = encoded((action, payload), capacity).update(pos, value);
    assert(altered[S_PAYLOAD_LEN as int] == n as u8);
    assert(declared_len(altered) == SERVICE_FIELDS_LEN + n);
}

/// Truncation: a buffer shorter than the header, or than the total frame length
/// that its length byte declares, fails with `Len`.
pub proof fn lemma_truncated(buf: Seq<u8>)
    requires
        buf.len() < SERVICE_FIELDS_LEN || buf.len() < declared_len(buf),
    ensures
        decoded(buf) == Err::<(u8, Seq<u8>), PacketError>(PacketError::Len),
{
}

/// The frame codec.
pub struct PacketParser {}

impl PacketParser {
    pub fn new() -> Self {
        PacketParser {  }
    }

    /// Decodes the frame at the start of `buffer`; the payload is a view into it.
    pub fn incoming<'a>(&self, buffer: &'a [u8]) -> (r: Result<Packet<'a>, PacketError>)
        ensures
            match r {
                Ok(p) => decoded(buffer@) == Ok::<(u8, Seq<u8>), PacketError>(p@),
                Err(e) => decoded(buffer@) == Err::<(u8, Seq<u8>), PacketError>(e),
            },
    {
        if buffer.len() < SERVICE_FIELDS_LEN {
            return Err(PacketError::Len);
        }
        let payload_len = buffer[S_PAYLOAD_LEN] as usize;
        let proposed_len = SERVICE_FIELDS_LEN + payload_len;
        if proposed_len > buffer.len() {
            return Err(PacketError::Len);
        }
        let end = proposed_len - 1;
        let payload_end = end - E_PAYLOAD_END;

        if buffer[0] != START_SENTINEL || buffer[end] != END_SENTINEL {
            return Err(PacketError::Format);
        }
        let their_checksum = buffer[end - E_CHECKSUM];
        let our_checksum = checksum(&buffer[S_ACTION..payload_end + 1]);

        if their_checksum == our_checksum {
            let payload = &buffer[S_PAYLOAD_START..payload_end + 1];
            let action = buffer[S_ACTION];
            Ok(Packet { action, payload })
        } else {
            Err(PacketError::Checksum)
        }
    }

    /// Encodes `data` into `buffer`, zero-filling what the frame leaves over, and
    /// returns the frame length. The buffer is left as it was when the frame does
    /// not fit.
    pub fn outgoing(&self, buffer: &mut [u8], data: &Packet) -> (r: Result<usize, PacketError>)
        ensures
            final(buffer)@.len() == old(buffer)@.len(),
            match r {
                Ok(n) => {
                    &&& fits(data.payload@.len(), old(buffer)@.len())
                    &&& n == SERVICE_FIELDS_LEN + data.payload@.len()
                    &&& final(buffer)@ == encoded(data@, old(buffer)@.len())
                },
                Err(e) => {
                    &&& !fits(data.payload@.len(), old(buffer)@.len())
                    &&& e == PacketError::Len
                    &&& final(buffer)@ == old(buffer)@
                },
            },
    {
        let payload_len = data.payload.len();
        if payload_len > MAX_PAYLOAD_LEN || buffer.len() < SERVICE_FIELDS_LEN
            || buffer.len() - SERVICE_FIELDS_LEN < payload_len {
            return Err(PacketError::Len);
        }
        let proposed_len = payload_len + SERVICE_FIELDS_LEN;
        let end = proposed_len - 1;
        let payload_end = end - E_PAYLOAD_END;

        let mut i: usize = 0;
        while i < buffer.len()
            invariant
                buffer@.len() == old(buffer)@.len(),
                i <= buffer@.len(),
                forall|j: int| 0 <= j < i ==> buffer@[j] == 0u8,
            decreases buffer@.len() - i,
        {
            buffer[i] = 0;
            i = i + 1;
        }

        buffer[0] = START_SENTINEL;
        buffer[S_ACTION] = data.action;
        buffer[S_PAYLOAD_LEN] = payload_len as u8;

        let mut k: usize = 0;
        while k < payload_len
            invariant
                buffer@.len() == old(buffer)@.len(),
                payload_len == data.payload@.len(),
                proposed_len == SERVICE_FIELDS_LEN + payload_len <= buffer@.len(),
                k <= payload_len,
                buffer@[0] == START_SENTINEL,
                buffer@[S_ACTION as int] == data.action,
                buffer@[2] == 0u8,
                buffer@[3] == 0u8,
                buffer@[4] == 0u8,
                buffer@[S_PAYLOAD_LEN as int] == payload_len as u8,
                forall|j: int| 0 <= j < k ==> buffer@[S_PAYLOAD_START + j] == data.payload@[j],
                forall|j: int| S_PAYLOAD_START + k <= j < buffer@.len() ==> buffer@[j] == 0u8,
            decreases payload_len - k,
        {
            buffer[S_PAYLOAD_START + k] = data.payload[k];
            k = k + 1;
        }
        buffer[end] = END_SENTINEL;

        assert(buffer@.subrange(1, end - 1) =~= checked_body(data.action, data.payload@));
        let sum = checksum(&buffer[S_ACTION..payload_end + 1]);
        buffer[end - E_CHECKSUM] = sum;

        assert(buffer@ =~= encoded(data@, old(buffer)@.len()));
        Ok(proposed_len)
    }
}

} // verus!

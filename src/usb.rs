// HID reports carry one frame behind a two-byte prefix: the report id and, on
// the way out, the frame length. The transport itself lives outside the library.
use crate::errors::PacketError;
use crate::parser::{decoded, encoded, fits, Packet, PacketParser, SERVICE_FIELDS_LEN};
use vstd::prelude::*;

verus! {

/// Size of a HID report on the endpoint, prefix included.
pub const USB_PACKET_SIZE: usize = 64;

/// Bytes of an inbound report that are left for the frame.
pub const USB_ENDPOINT_SIZE: usize = 62;

/// Bytes in front of the frame in a report.
pub const REPORT_PREFIX_LEN: usize = 2;

/// Size of a report sent to the host: the input report of 62 bytes behind the
/// report id.
pub const OUT_REPORT_SIZE: usize = USB_PACKET_SIZE - 1;

/// Bytes of an outbound report that are left for the frame.
pub const RESPONSE_FRAME_CAPACITY: usize = OUT_REPORT_SIZE - REPORT_PREFIX_LEN;

/// Report id of the reports sent to the host.
pub const INPUT_REPORT_ID: u8 = 0x01;

/// What decoding the frame behind the prefix of `report` gives.
pub open spec fn report_decoded(report: Seq<u8>) -> Result<(u8, Seq<u8>), PacketError> {
    if report.len() < REPORT_PREFIX_LEN {
        Err(PacketError::Len)
    } else {
        decoded(report.subrange(REPORT_PREFIX_LEN as int, report.len() as int))
    }
}

/// Whether a response with a payload of `payload_len` bytes fits in a report of
/// `report_len` bytes.
pub open spec fn fits_report(payload_len: nat, report_len: nat) -> bool {
    report_len >= REPORT_PREFIX_LEN && fits(payload_len, (report_len - REPORT_PREFIX_LEN) as nat)
}

/// Decodes the request that a report from the host carries; the payload is a
/// view into the report.
pub fn request_from_report<'a>(parser: &PacketParser, report: &'a [u8]) -> (r: Result<
    Packet<'a>,
    PacketError,
>)
    ensures
        match r {
            Ok(p) => report_decoded(report@) == Ok::<(u8, Seq<u8>), PacketError>(p@),
            Err(e) => report_decoded(report@) == Err::<(u8, Seq<u8>), PacketError>(e),
        },
{
    if report.len() < REPORT_PREFIX_LEN {
        return Err(PacketError::Len);
    }
    parser.incoming(&report[REPORT_PREFIX_LEN..report.len()])
}

/// Fills `report` with the report that carries `response`: the report id, the
/// frame length and the frame, zeros after it. Returns the frame length; the
/// report is left as it was when the frame does not fit.
pub fn report_from_response(parser: &PacketParser, report: &mut [u8], response: &Packet) -> (r:
    Result<usize, PacketError>)
    ensures
        final(report)@.len() == old(report)@.len(),
        match r {
            Ok(n) => {
                &&& fits_report(response.payload@.len(), old(report)@.len())
                &&& n == SERVICE_FIELDS_LEN + response.payload@.len()
                &&& final(report)@ == seq![INPUT_REPORT_ID, n as u8] + encoded(
                    response@,
                    (old(report)@.len() - REPORT_PREFIX_LEN) as nat,
                )
            },
            Err(e) => {
                &&& !fits_report(response.payload@.len(), old(report)@.len())
                &&& e == PacketError::Len
                &&& final(report)@ == old(report)@
            },
        },
{
    if report.len() < REPORT_PREFIX_LEN {
        return Err(PacketError::Len);
    }
    let (prefix, frame) = report.split_at_mut(REPORT_PREFIX_LEN);
    match parser.outgoing(frame, response) {
        Ok(len) => {
            prefix[0] = INPUT_REPORT_ID;
            prefix[1] = len as u8;
            assert(prefix@ =~= seq![INPUT_REPORT_ID, len as u8]);
            Ok(len)
        },
        Err(e) => {
            assert(prefix@ + frame@ =~= old(report)@);
            Err(e)
        },
    }
}

} // verus!

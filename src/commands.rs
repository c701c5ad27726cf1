// The command dispatcher. Each request becomes one `Operation`: an answer that
// is ready at once, or a hardware step (an I2C transaction, a change of the
// discrete outputs). Whoever owns the hardware performs the step and hands its
// outcome back to `i2c_read_done` or `i2c_write_done` for the answer.
use crate::parser::{Packet, SERVICE_FIELDS_LEN};
use crate::usb::{fits_report, OUT_REPORT_SIZE, RESPONSE_FRAME_CAPACITY};
use vstd::prelude::*;

verus! {

pub const REQUEST_I2C_READ: u8 = 0x1d;

pub const REQUEST_I2C_WRITE: u8 = 0x1e;

pub const REQUEST_STATUS: u8 = 0x80;

pub const REQUEST_GPIO_WRITE: u8 = 0xb7;

pub const RESPONSE_I2C_READ: u8 = 0x52;

pub const RESPONSE_STATUS: u8 = 0xc0;

pub const RESPONSE_ERR: u8 = 0x46;

pub const SUB_CODE_OTHER: u8 = 0x90;

pub const SUB_CODE_BAD_CHECKSUM: u8 = 0x91;

pub const SUB_CODE_TIMEOUT_BUSY: u8 = 0x92;

pub const SUB_CODE_NO_ACK: u8 = 0x93;

/// Known in the protocol family (timeout or device busy), never sent here.
pub const SUB_CODE_BUSY: u8 = 0x94;

/// Known in the protocol family (no free adapter), never sent here.
pub const SUB_CODE_NO_FREE_ADAPTER: u8 = 0x95;

/// Bits of the GPIO mask and port words that select the three outputs.
pub const PIN1: u32 = 0x40;

pub const PIN2: u32 = 0x80;

pub const PIN4: u32 = 0x8000;

pub const FW_VERSION_MAJOR: u8 = 6;

pub const FW_VERSION_MINOR: u8 = 66;

/// Capacity of the dispatcher's transaction buffer.
pub const I2C_BUFFER_SIZE: usize = 64;

/// Bytes in front of the data of an I2C read response.
pub const READ_RESPONSE_RESERVED: usize = 2;

/// A condition reported to the host inside an error packet.
#[derive(Debug, Clone, Copy, PartialEq, Eq, Structural)]
pub enum ResponseError {
    BadChecksum,
    TimeoutBusy,
    NoAck,
    Other,
}

pub open spec fn sub_code(e: ResponseError) -> u8 {
    match e {
        ResponseError::Other => SUB_CODE_OTHER,
        ResponseError::BadChecksum => SUB_CODE_BAD_CHECKSUM,
        ResponseError::TimeoutBusy => SUB_CODE_TIMEOUT_BUSY,
        ResponseError::NoAck => SUB_CODE_NO_ACK,
    }
}

pub open spec fn status_packet() -> (u8, Seq<u8>) {
    (RESPONSE_STATUS, seq![FW_VERSION_MAJOR, FW_VERSION_MINOR])
}

pub open spec fn error_packet(e: ResponseError) -> (u8, Seq<u8>) {
    (RESPONSE_ERR, seq![0u8, sub_code(e)])
}

/// Builds the packets that the dispatcher answers with on its own.
pub struct PacketFactory;

impl PacketFactory {
    /// The status report: the version of the firmware.
    pub fn response_status<'a>() -> (r: Packet<'a>)
        ensures
            r@ == status_packet(),
    {
        Packet::new(RESPONSE_STATUS, &[FW_VERSION_MAJOR, FW_VERSION_MINOR])
    }

    pub fn response_error<'a>(e: ResponseError) -> (r: Packet<'a>)
        ensures
            r@ == error_packet(e),
    {
        match e {
            ResponseError::Other => Packet::new(RESPONSE_ERR, &[0, SUB_CODE_OTHER]),
            ResponseError::BadChecksum => Packet::new(RESPONSE_ERR, &[0, SUB_CODE_BAD_CHECKSUM]),
            ResponseError::TimeoutBusy => Packet::new(RESPONSE_ERR, &[0, SUB_CODE_TIMEOUT_BUSY]),
            ResponseError::NoAck => Packet::new(RESPONSE_ERR, &[0, SUB_CODE_NO_ACK]),
        }
    }
}

/// The bus reported a failure (no acknowledge, arbitration lost, ...).
#[derive(Debug, Clone, Copy, PartialEq, Eq)]
pub struct BusError;

/// What a GPIO write does to each output: `None` leaves it alone, `Some(high)`
/// drives it.
#[derive(Debug, Clone, Copy, PartialEq, Eq)]
pub struct OutputLevels {
    pub out1: Option<bool>,
    pub out2: Option<bool>,
    pub out4: Option<bool>,
}

/// The step that a request asks for.
#[derive(Debug, Clone, Copy, PartialEq, Eq)]
pub enum Operation {
    /// Send this packet, with no hardware work.
    Reply(Packet<'static>),
    /// One combined transaction: write `[register]` to `address`, then read
    /// `len` bytes; the answer comes from `i2c_read_done`.
    I2cWriteRead { address: u8, register: u8, len: usize },
    /// One write of the first `len` bytes of `transaction()` to `address`; the
    /// answer comes from `i2c_write_done`.
    I2cWrite { address: u8, len: usize },
    /// Drive the outputs; the answer comes from `gpio_write_done`.
    SetOutputs(OutputLevels),
}

/// The meaning of an `Operation`, with the bytes of a write spelled out.
pub enum Dispatch {
    Reply((u8, Seq<u8>)),
    I2cWriteRead { address: u8, register: u8, len: nat },
    I2cWrite { address: u8, bytes: Seq<u8> },
    SetOutputs(OutputLevels),
}

pub open spec fn op_model(op: Operation, buffer: Seq<u8>) -> Dispatch {
    match op {
        Operation::Reply(p) => Dispatch::Reply(p@),
        Operation::I2cWriteRead { address, register, len } => Dispatch::I2cWriteRead {
            address,
            register,
            len: len as nat,
        },
        Operation::I2cWrite { address, len } => Dispatch::I2cWrite {
            address,
            bytes: buffer.subrange(0, len as int),
        },
        Operation::SetOutputs(levels) => Dispatch::SetOutputs(levels),
    }
}

/// The big-endian value of the bytes `[0, hi, mid, lo]`.
pub open spec fn word_of(hi: u8, mid: u8, lo: u8) -> u32 {
    (hi as int * 0x10000 + mid as int * 0x100 + lo as int) as u32
}

pub open spec fn pin_level(pin: u32, mask: u32, port: u32) -> Option<bool> {
    if mask & pin != 0 {
        Some(port & pin != 0)
    } else {
        None
    }
}

/// Levels of a GPIO write payload: the port word is made of bytes 1, 3, 5 and
/// the mask word of bytes 2, 4, 6.
pub open spec fn levels_of(p: Seq<u8>) -> OutputLevels {
    let mask = word_of(p[2], p[4], p[6]);
    let port = word_of(p[1], p[3], p[5]);
    OutputLevels {
        out1: pin_level(PIN1, mask, port),
        out2: pin_level(PIN2, mask, port),
        out4: pin_level(PIN4, mask, port),
    }
}

/// The 7-bit device address carried, shifted left by one, in the first byte.
pub open spec fn device_address(p: Seq<u8>) -> u8 {
    p[0] >> 1
}

/// What the dispatcher does with a request. Malformed requests get an `Other`
/// error, among them a write whose register byte and data would not fit in the
/// transaction buffer; unknown actions get a `NoAck` error.
pub open spec fn dispatched(request: (u8, Seq<u8>)) -> Dispatch {
    let action = request.0;
    let p = request.1;
    if action == REQUEST_I2C_READ {
        if p.len() < 3 || READ_RESPONSE_RESERVED + p[2] > RESPONSE_FRAME_CAPACITY - SERVICE_FIELDS_LEN {
            Dispatch::Reply(error_packet(ResponseError::Other))
        } else {
            Dispatch::I2cWriteRead { address: device_address(p), register: p[1], len: p[2] as nat }
        }
    } else if action == REQUEST_I2C_WRITE {
        if p.len() < 3 || p[2] != p.len() - 3 || p.len() - 2 > I2C_BUFFER_SIZE {
            Dispatch::Reply(error_packet(ResponseError::Other))
        } else {
            Dispatch::I2cWrite { address: device_address(p), bytes: seq![p[1]] + p.subrange(3, p.len() as int) }
        }
    } else if action == REQUEST_GPIO_WRITE {
        if p.len() != 7 {
            Dispatch::Reply(error_packet(ResponseError::Other))
        } else {
            Dispatch::SetOutputs(levels_of(p))
        }
    } else if action == REQUEST_STATUS {
        Dispatch::Reply(status_packet())
    } else {
        Dispatch::Reply(error_packet(ResponseError::NoAck))
    }
}

/// A status request is answered with the status packet whatever its payload,
/// and, as `dispatched` reads nothing but the request, whatever the dispatcher
/// did before: the device is never busy.
pub proof fn lemma_status_always_answered(payload: Seq<u8>)
    ensures
        dispatched((REQUEST_STATUS, payload)) == Dispatch::Reply(status_packet()),
{
}

/// Every read that the dispatcher accepts has an answer that fits in one
/// report to the host, so a successful read is never left unanswered.
pub proof fn lemma_read_answer_fits_report(request: (u8, Seq<u8>))
    ensures
        dispatched(request) is I2cWriteRead ==> fits_report(
            (READ_RESPONSE_RESERVED + dispatched(request)->I2cWriteRead_len) as nat,
            OUT_REPORT_SIZE as nat,
        ),
{
}

fn be_word(hi: u8, mid: u8, lo: u8) -> (r: u32)
    ensures
        r == word_of(hi, mid, lo),
{
    (hi as u32) * 0x10000 + (mid as u32) * 0x100 + (lo as u32)
}

fn level(pin: u32, mask: u32, port: u32) -> (r: Option<bool>)
    ensures
        r == pin_level(pin, mask, port),
{
    if mask & pin > 0 {
        Some(port & pin > 0)
    } else {
        None
    }
}

/// The dispatcher: owns the transaction buffer of the I2C bus.
pub struct Communicator {
    i2c_buffer: [u8; I2C_BUFFER_SIZE],
}

impl View for Communicator {
    type V = Seq<u8>;

    closed spec fn view(&self) -> Seq<u8> {
        self.i2c_buffer@
    }
}

impl Communicator {
    pub fn new() -> (r: Self)
        ensures
            r@ == Seq::new(I2C_BUFFER_SIZE as nat, |i: int| 0u8),
    {
        let r = Communicator { i2c_buffer: [0; I2C_BUFFER_SIZE] };
        assert(r@ =~= Seq::new(I2C_BUFFER_SIZE as nat, |i: int| 0u8));
        r
    }

    /// The first `len` bytes of the transaction buffer: what an
    /// `Operation::I2cWrite` asks to write.
    pub fn transaction(&self, len: usize) -> (r: &[u8])
        requires
            len <= I2C_BUFFER_SIZE,
        ensures
            self@.len() == I2C_BUFFER_SIZE,
            r@ == self@.subrange(0, len as int),
    {
        let all = vstd::array::array_as_slice(&self.i2c_buffer);
        &all[0..len]
    }

    fn i2c_write(&mut self, address: u8, start: u8, data: &[u8]) -> (op: Operation)
        requires
            data@.len() + 1 <= I2C_BUFFER_SIZE,
        ensures
            final(self)@.len() == I2C_BUFFER_SIZE,
            op is I2cWrite && op->I2cWrite_len == data@.len() + 1,
            op_model(op, final(self)@) == (Dispatch::I2cWrite {
                address,
                bytes: seq![start] + data@,
            }),
    {
        let transaction_len = data.len() + 1;
        self.i2c_buffer[0] = start;
        let mut k: usize = 0;
        while k < data.len()
            invariant
                self.i2c_buffer@.len() == I2C_BUFFER_SIZE,
                transaction_len == data@.len() + 1 <= I2C_BUFFER_SIZE,
                k <= data@.len(),
                self.i2c_buffer@[0] == start,
                forall|j: int| 0 <= j < k ==> self.i2c_buffer@[j + 1] == data@[j],
            decreases data@.len() - k,
        {
            self.i2c_buffer[k + 1] = data[k];
            k = k + 1;
        }
        assert(self.i2c_buffer@.subrange(0, transaction_len as int) =~= seq![start] + data@);
        Operation::I2cWrite { address, len: transaction_len }
    }

    fn i2c_op(&mut self, command: &Packet, read: bool) -> (op: Operation)
        requires
            command.action == if read {
                REQUEST_I2C_READ
            } else {
                REQUEST_I2C_WRITE
            },
        ensures
            final(self)@.len() == I2C_BUFFER_SIZE,
            op_model(op, final(self)@) == dispatched(command@),
            op is I2cWrite ==> op->I2cWrite_len <= I2C_BUFFER_SIZE,
    {
        let bad_packet_response = Operation::Reply(PacketFactory::response_error(ResponseError::Other));

        if command.payload.len() < 3 {
            return bad_packet_response;
        }
        let address = command.payload[0] >> 1;
        let start = command.payload[1];
        let len = command.payload[2] as usize;

        if read {
            let payload_len = READ_RESPONSE_RESERVED + len;
            if payload_len > Packet::max_payload(RESPONSE_FRAME_CAPACITY) {
                bad_packet_response
            } else {
                Operation::I2cWriteRead { address, register: start, len }
            }
        } else {
            let i2c_data = &command.payload[3..command.payload.len()];
            if len != i2c_data.len() || i2c_data.len() + 1 > I2C_BUFFER_SIZE {
                bad_packet_response
            } else {
                self.i2c_write(address, start, i2c_data)
            }
        }
    }

    fn gpio_write(&self, command: &Packet) -> (op: Operation)
        requires
            command.action == REQUEST_GPIO_WRITE,
        ensures
            op_model(op, self@) == dispatched(command@),
    {
        let data = command.payload;
        if data.len() != 7 {
            return Operation::Reply(PacketFactory::response_error(ResponseError::Other));
        }
        let mask = be_word(data[2], data[4], data[6]);
        let port = be_word(data[1], data[3], data[5]);
        Operation::SetOutputs(
            OutputLevels {
                out1: level(PIN1, mask, port),
                out2: level(PIN2, mask, port),
                out4: level(PIN4, mask, port),
            },
        )
    }

    /// Decides what `request` asks of the hardware. Nothing but an I2C write
    /// touches the transaction buffer, and the answer does not depend on what
    /// came before: a status request is always answered, as the device is never
    /// busy.
    pub fn run(&mut self, request: &Packet) -> (op: Operation)
        ensures
            final(self)@.len() == I2C_BUFFER_SIZE,
            op_model(op, final(self)@) == dispatched(request@),
            op is I2cWrite ==> op->I2cWrite_len <= I2C_BUFFER_SIZE,
    {
        if request.action == REQUEST_I2C_READ {
            self.i2c_op(request, true)
        } else if request.action == REQUEST_I2C_WRITE {
            self.i2c_op(request, false)
        } else if request.action == REQUEST_GPIO_WRITE {
            self.gpio_write(request)
        } else if request.action == REQUEST_STATUS {
            Operation::Reply(PacketFactory::response_status())
        } else {
            Operation::Reply(PacketFactory::response_error(ResponseError::NoAck))
        }
    }

    /// The answer to a combined read: the data behind two reserved zero bytes
    /// when the bus delivered `data`, a `NoAck` error when it failed.
    pub fn i2c_read_done<'s>(&'s mut self, outcome: Result<&[u8], BusError>) -> (r: Packet<'s>)
        requires
            outcome is Ok ==> READ_RESPONSE_RESERVED + outcome->Ok_0@.len() <= I2C_BUFFER_SIZE,
        ensures
            r@ == match outcome {
                Ok(data) => (RESPONSE_I2C_READ, seq![0u8, 0u8] + data@),
                Err(_) => error_packet(ResponseError::NoAck),
            },
    {
        match outcome {
            Ok(data) => {
                let payload_len = READ_RESPONSE_RESERVED + data.len();
                self.i2c_buffer[0] = 0;
                self.i2c_buffer[1] = 0;
                let mut k: usize = 0;
                while k < data.len()
                    invariant
                        self.i2c_buffer@.len() == I2C_BUFFER_SIZE,
                        payload_len == READ_RESPONSE_RESERVED + data@.len() <= I2C_BUFFER_SIZE,
                        k <= data@.len(),
                        self.i2c_buffer@[0] == 0u8,
                        self.i2c_buffer@[1] == 0u8,
                        forall|j: int| 0 <= j < k ==> self.i2c_buffer@[j + 2] == data@[j],
                    decreases data@.len() - k,
                {
                    self.i2c_buffer[k + 2] = data[k];
                    k = k + 1;
                }
                let this: &'s Self = self;
                let all = vstd::array::array_as_slice(&this.i2c_buffer);
                let payload = &all[0..payload_len];
                assert(payload@ =~= seq![0u8, 0u8] + data@);
                Packet::new(RESPONSE_I2C_READ, payload)
            },
            Err(_) => PacketFactory::response_error(ResponseError::NoAck),
        }
    }

    /// The answer to a GPIO write once the outputs are set: none. Whether the
    /// host expects an acknowledgment here is an open question; none is sent.
    pub fn gpio_write_done() -> (r: Option<Packet<'static>>)
        ensures
            r is None,
    {
        None
    }

    /// The answer to a write: none when the bus took it (an answer would confuse
    /// the host), a `NoAck` error when it failed.
    pub fn i2c_write_done(outcome: Result<(), BusError>) -> (r: Option<Packet<'static>>)
        ensures
            match outcome {
                Ok(_) => r is None,
                Err(_) => r is Some && r->Some_0@ == error_packet(ResponseError::NoAck),
            },
    {
        match outcome {
            Ok(_) => None,
            Err(_) => Some(PacketFactory::response_error(ResponseError::NoAck)),
        }
    }
}

} // verus!

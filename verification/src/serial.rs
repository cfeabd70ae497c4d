//! Polled transmitter for a 16550-style serial port.
//!
//! The driver decides which register is touched next and with what value;
//! the port instructions themselves are performed by the caller, who hands
//! back what a status read returned.

use vstd::prelude::*;
use vstd::string::StringSliceAdditionalSpecFns;
use vstd::string::StrSliceExecFns;
use crate::text::{fragment_bytes, joined};

verus! {

/// Base address of the first serial port.
pub const COM1_PORT: u16 = 0x3F8;

/// Offset of the data register.
pub const DATA_REG: u16 = 0;

/// Offset of the interrupt-enable register.
pub const INT_ENABLE_REG: u16 = 1;

/// Offset of the FIFO control register.
pub const FIFO_CTRL_REG: u16 = 2;

/// Offset of the line control register.
pub const LINE_CTRL_REG: u16 = 3;

/// Offset of the modem control register.
pub const MODEM_CTRL_REG: u16 = 4;

/// Offset of the line status register.
pub const LINE_STATUS_REG: u16 = 5;

/// The highest base address whose six registers all have an address.
pub const MAX_BASE_PORT: u16 = 0xFFFA;

/// The bit of the line status that says the transmit holding register is
/// empty.
pub const TRANSMIT_EMPTY: u8 = 0x20;

/// The byte that ends a line.
pub const LINE_FEED: u8 = 0x0a;

/// One byte to be written to one port.
#[derive(Debug, Clone, Copy, PartialEq, Eq, Structural)]
pub struct PortWrite {
    pub port: u16,
    pub value: u8,
}

/// What the caller reports to a transmission.
#[derive(Debug, Clone, Copy, PartialEq, Eq, Structural)]
pub enum SerialEvent {
    /// The transmission starts, or the write it asked for was performed.
    Ready,
    /// The line status register was read and held this byte.
    Status(u8),
}

/// What a transmission asks of the caller next.
#[derive(Debug, Clone, Copy, PartialEq, Eq, Structural)]
pub enum SerialAction {
    /// Read the line status register at this port and report it.
    ReadStatus { port: u16 },
    /// Perform this write to the data register and report `Ready`.
    WriteData(PortWrite),
    /// Every byte was handed out.
    Done,
}

/// Whether a line status says that the next byte can be sent.
pub open spec fn transmit_empty(status: u8) -> bool {
    status & TRANSMIT_EMPTY != 0
}

/// The register writes that configure a port at `port`, in order:
/// interrupts off; divisor latch open, divisor 1, latch closed with 8 data
/// bits, no parity and 1 stop bit; FIFO on and cleared with a threshold of
/// 14 bytes; DTR, RTS and OUT2 asserted.
pub open spec fn init_sequence(port: u16) -> Seq<PortWrite> {
    seq![
        PortWrite { port: (port + INT_ENABLE_REG) as u16, value: 0x00 },
        PortWrite { port: (port + LINE_CTRL_REG) as u16, value: 0x80 },
        PortWrite { port: (port + DATA_REG) as u16, value: 0x01 },
        PortWrite { port: (port + INT_ENABLE_REG) as u16, value: 0x00 },
        PortWrite { port: (port + LINE_CTRL_REG) as u16, value: 0x03 },
        PortWrite { port: (port + FIFO_CTRL_REG) as u16, value: 0xC7 },
        PortWrite { port: (port + MODEM_CTRL_REG) as u16, value: 0x0B },
    ]
}

/// A transmission as a value: the base address of the port, the bytes to
/// send and how many of them were handed out for writing.
pub struct Line {
    pub port: u16,
    pub bytes: Seq<u8>,
    pub sent: int,
}

impl Line {
    /// No more bytes were handed out than there are, and the registers of
    /// the port have addresses.
    pub open spec fn wf(self) -> bool {
        0 <= self.sent <= self.bytes.len() && self.port <= MAX_BASE_PORT
    }

    /// Whether every byte was handed out.
    pub open spec fn finished(self) -> bool {
        self.sent == self.bytes.len()
    }

    /// What is asked of the caller after an event: nothing when every byte
    /// is out; the next byte's write when the event is a status with the
    /// transmit-empty bit; a read of the line status otherwise.
    pub open spec fn next_action(self, event: SerialEvent) -> SerialAction {
        if self.finished() {
            SerialAction::Done
        } else {
            match event {
                SerialEvent::Status(status) if transmit_empty(status) => SerialAction::WriteData(
                    PortWrite { port: (self.port + DATA_REG) as u16, value: self.bytes[self.sent] },
                ),
                _ => SerialAction::ReadStatus { port: (self.port + LINE_STATUS_REG) as u16 },
            }
        }
    }

    /// The transmission after an event: one more byte is out exactly when
    /// the event made it ask for a write.
    pub open spec fn after(self, event: SerialEvent) -> Line {
        if self.next_action(event) is WriteData {
            Line { sent: self.sent + 1, ..self }
        } else {
            self
        }
    }

    /// The transmission after a run of events.
    pub open spec fn run(self, events: Seq<SerialEvent>) -> Line
        decreases events.len(),
    {
        if events.len() == 0 {
            self
        } else {
            self.run(events.drop_last()).after(events.last())
        }
    }

    /// The bytes whose write was asked for in a run of events, in the
    /// order of the events.
    pub open spec fn written(self, events: Seq<SerialEvent>) -> Seq<u8>
        decreases events.len(),
    {
        if events.len() == 0 {
            Seq::empty()
        } else {
            let earlier = self.written(events.drop_last());
            match self.run(events.drop_last()).next_action(events.last()) {
                SerialAction::WriteData(write) => earlier.push(write.value),
                _ => earlier,
            }
        }
    }
}

/// A write to the data register is asked for only in answer to a status
/// that has the transmit-empty bit, whatever happened before; it goes to
/// the data register of the port and carries the first byte not yet out.
pub proof fn lemma_write_answers_transmit_empty(
    line: Line,
    events: Seq<SerialEvent>,
    event: SerialEvent,
)
    requires
        line.wf(),
    ensures
        line.run(events).wf(),
        line.run(events).next_action(event) is WriteData ==> {
            &&& event is Status
            &&& transmit_empty(event->Status_0)
            &&& line.run(events).next_action(event)->WriteData_0 == (PortWrite {
                port: (line.port + DATA_REG) as u16,
                value: line.bytes[line.run(events).sent],
            })
        },
{
    lemma_run_keeps_the_text(line, events);
}

/// A run of events changes neither the port nor the text, and never hands
/// out more bytes than there are.
pub proof fn lemma_run_keeps_the_text(line: Line, events: Seq<SerialEvent>)
    requires
        line.wf(),
    ensures
        line.run(events).wf(),
        line.run(events).port == line.port,
        line.run(events).bytes == line.bytes,
        line.sent <= line.run(events).sent,
    decreases events.len(),
{
    if events.len() > 0 {
        lemma_run_keeps_the_text(line, events.drop_last());
    }
}

/// The bytes go out in the order of the text, none twice and none left
/// out: what a run of events asked to write is the part of the text
/// between where the run began and where it ended.
pub proof fn lemma_bytes_go_out_in_order(line: Line, events: Seq<SerialEvent>)
    requires
        line.wf(),
    ensures
        line.sent <= line.run(events).sent <= line.bytes.len(),
        line.written(events) == line.bytes.subrange(line.sent, line.run(events).sent),
    decreases events.len(),
{
    lemma_run_keeps_the_text(line, events);
    if events.len() == 0 {
        assert(line.written(events) =~= line.bytes.subrange(line.sent, line.sent));
    } else {
        let front = events.drop_last();
        lemma_bytes_go_out_in_order(line, front);
        lemma_run_keeps_the_text(line, front);
        assert(line.written(events) =~= line.bytes.subrange(line.sent, line.run(events).sent));
    }
}

/// The bytes of a text on their way out of one port, and how many of them
/// were handed out for writing.
pub struct Transmission {
    port: u16,
    bytes: Vec<u8>,
    sent: usize,
}

impl Transmission {
    /// The transmission as a value.
    pub closed spec fn view(&self) -> Line {
        Line { port: self.port, bytes: self.bytes@, sent: self.sent as int }
    }

    #[verifier::type_invariant]
    closed spec fn within_bounds(&self) -> bool {
        self.sent <= self.bytes.len() && self.port <= MAX_BASE_PORT
    }

    /// Takes an event and says what to do next. A write to the data
    /// register is asked for only in answer to a status that has the
    /// transmit-empty bit, and then carries the first byte not yet out.
    pub fn step(&mut self, event: SerialEvent) -> (action: SerialAction)
        ensures
            final(self)@.wf(),
            final(self)@ == old(self)@.after(event),
            action == old(self)@.next_action(event),
            action is WriteData ==> event is Status && transmit_empty(event->Status_0),
    {
        proof {
            use_type_invariant(&*self);
        }
        if self.sent >= self.bytes.len() {
            return SerialAction::Done;
        }
        match event {
            SerialEvent::Status(status) => {
                if SerialWriter::is_transmit_empty(status) {
                    let value = self.bytes[self.sent];
                    self.sent += 1;
                    return SerialAction::WriteData(PortWrite { port: self.port + DATA_REG, value });
                }
            },
            SerialEvent::Ready => {},
        }
        SerialAction::ReadStatus { port: self.port + LINE_STATUS_REG }
    }

    /// Whether every byte was handed out.
    pub fn is_finished(&self) -> (done: bool)
        ensures
            done == self@.finished(),
            self@.wf(),
    {
        proof {
            use_type_invariant(self);
        }
        self.sent >= self.bytes.len()
    }
}

/// A serial port, known by the base address of its registers.
pub struct SerialWriter {
    port: u16,
}

impl SerialWriter {
    /// The base address of the port.
    pub closed spec fn port(&self) -> u16 {
        self.port
    }

    #[verifier::type_invariant]
    closed spec fn registers_addressable(&self) -> bool {
        self.port <= MAX_BASE_PORT
    }

    /// The six registers of the port have addresses. This holds of every
    /// port.
    pub open spec fn wf(&self) -> bool {
        self.port() <= MAX_BASE_PORT
    }

    /// The port whose registers start at `port`.
    pub fn new(port: u16) -> (w: SerialWriter)
        requires
            port <= MAX_BASE_PORT,
        ensures
            w.wf(),
            w.port() == port,
    {
        SerialWriter { port }
    }

    /// The register writes that configure the port for polled
    /// transmission at the highest rate, 8 data bits, no parity, 1 stop
    /// bit; to be performed in order.
    pub fn init(&self) -> (writes: Vec<PortWrite>)
        ensures
            writes@ == init_sequence(self.port()),
    {
        proof {
            use_type_invariant(self);
        }
        let mut writes: Vec<PortWrite> = Vec::new();
        writes.push(PortWrite { port: self.port + INT_ENABLE_REG, value: 0x00 });
        writes.push(PortWrite { port: self.port + LINE_CTRL_REG, value: 0x80 });
        writes.push(PortWrite { port: self.port + DATA_REG, value: 0x01 });
        writes.push(PortWrite { port: self.port + INT_ENABLE_REG, value: 0x00 });
        writes.push(PortWrite { port: self.port + LINE_CTRL_REG, value: 0x03 });
        writes.push(PortWrite { port: self.port + FIFO_CTRL_REG, value: 0xC7 });
        writes.push(PortWrite { port: self.port + MODEM_CTRL_REG, value: 0x0B });
        assert(writes@ =~= init_sequence(self.port()));
        writes
    }

    /// The address of the line status register.
    pub fn line_status_port(&self) -> (port: u16)
        ensures
            port == self.port() + LINE_STATUS_REG,
    {
        proof {
            use_type_invariant(self);
        }
        self.port + LINE_STATUS_REG
    }

    /// Whether a byte read from the line status register says that the
    /// transmit holding register is empty.
    pub fn is_transmit_empty(status: u8) -> (empty: bool)
        ensures
            empty == transmit_empty(status),
    {
        (status & TRANSMIT_EMPTY) != 0
    }

    /// The transmission of one byte.
    pub fn write_byte(&self, byte: u8) -> (t: Transmission)
        ensures
            t@ == (Line { port: self.port(), bytes: seq![byte], sent: 0 }),
            t@.wf(),
    {
        proof {
            use_type_invariant(self);
        }
        let mut bytes: Vec<u8> = Vec::new();
        bytes.push(byte);
        assert(bytes@ =~= seq![byte]);
        Transmission { port: self.port, bytes, sent: 0 }
    }

    /// The transmission of the bytes of a text, in order.
    pub fn write_string(&self, s: &str) -> (t: Transmission)
        ensures
            t@ == (Line { port: self.port(), bytes: s.spec_bytes(), sent: 0 }),
            t@.wf(),
    {
        proof {
            use_type_invariant(self);
        }
        Transmission { port: self.port, bytes: s.as_bytes_vec(), sent: 0 }
    }

    /// The transmission of the bytes of a text and a line feed after them.
    pub fn write_line(&self, s: &str) -> (t: Transmission)
        ensures
            t@ == (Line { port: self.port(), bytes: s.spec_bytes().push(LINE_FEED), sent: 0 }),
            t@.wf(),
    {
        proof {
            use_type_invariant(self);
        }
        let mut bytes = s.as_bytes_vec();
        bytes.push(LINE_FEED);
        Transmission { port: self.port, bytes, sent: 0 }
    }
}

/// The register writes that configure the first serial port.
pub fn init() -> (writes: Vec<PortWrite>)
    ensures
        writes@ == init_sequence(COM1_PORT),
{
    SerialWriter::new(COM1_PORT).init()
}

/// The transmission of one byte through the first serial port.
pub fn write_byte(byte: u8) -> (t: Transmission)
    ensures
        t@ == (Line { port: COM1_PORT, bytes: seq![byte], sent: 0 }),
        t@.wf(),
{
    SerialWriter::new(COM1_PORT).write_byte(byte)
}

/// The transmission of a text through the first serial port.
pub fn write_string(s: &str) -> (t: Transmission)
    ensures
        t@ == (Line { port: COM1_PORT, bytes: s.spec_bytes(), sent: 0 }),
        t@.wf(),
{
    SerialWriter::new(COM1_PORT).write_string(s)
}

/// The transmission of a text and a line feed through the first serial
/// port.
pub fn write_line(s: &str) -> (t: Transmission)
    ensures
        t@ == (Line { port: COM1_PORT, bytes: s.spec_bytes().push(LINE_FEED), sent: 0 }),
        t@.wf(),
{
    SerialWriter::new(COM1_PORT).write_line(s)
}

/// The transmission of the fragments of a formatted text through the
/// first serial port, in their order.
pub fn _print(fragments: &[&str]) -> (t: Transmission)
    ensures
        t@ == (Line { port: COM1_PORT, bytes: joined(fragment_bytes(fragments@)), sent: 0 }),
        t@.wf(),
{
    let mut bytes: Vec<u8> = Vec::new();
    let mut i: usize = 0;
    while i < fragments.len()
        invariant
            i <= fragments.len(),
            bytes@ == joined(fragment_bytes(fragments@).take(i as int)),
        decreases fragments.len() - i,
    {
        proof {
            let next = fragment_bytes(fragments@).take(i + 1);
            assert(next.drop_last() =~= fragment_bytes(fragments@).take(i as int));
            assert(next.last() == fragments@[i as int].spec_bytes());
        }
        bytes.extend_from_slice(fragments[i].as_bytes());
        i += 1;
    }
    proof {
        assert(fragment_bytes(fragments@).take(i as int) =~= fragment_bytes(fragments@));
    }
    Transmission { port: COM1_PORT, bytes, sent: 0 }
}

} // verus!

//! The USART serial driver: divisor computation, initialization, and the
//! busy-wait transmit/receive loops, all specified as exact sequences of
//! register accesses.

use vstd::prelude::*;

use crate::regfile::{Access, RegisterFile, READY_FLAGS};
use crate::register::Register;

verus! {

/// Frequency of the system clock in Hz; the USART scales this clock down to
/// synchronize with the serial baud rate. The board ships with an external
/// 16 MHz system clock.
pub const CLK: u32 = 16_000_000;

/// Status flag in a control/status register A: the data register is empty
/// and ready to accept the next byte to transmit.
pub const FLAG_DATA_EMPTY: u8 = 0x20;

/// Status flag in a control/status register A: a received byte is waiting in
/// the data register.
pub const FLAG_RX_COMPLETE: u8 = 0x80;

/// Control bit in a control/status register B: enable the receiver.
pub const RX_ENABLE: u8 = 0x10;

/// Control bit in a control/status register B: enable the transmitter.
pub const TX_ENABLE: u8 = 0x08;

/// Frame format bits for a control/status register C: 8 data bits, no
/// parity, 1 stop bit.
pub const FRAME_8N1: u8 = 0x06;

/// The six registers that make up one complete USART instance.
pub struct SerialRegisterBlock {
    /// I/O data register
    pub udr: Register,
    /// Baud rate register, high byte
    pub ubrrh: Register,
    /// Baud rate register, low byte
    pub ubrrl: Register,
    /// Control/status register A (status flags)
    pub ucsra: Register,
    /// Control/status register B (enable bits)
    pub ucsrb: Register,
    /// Control/status register C (frame format)
    pub ucsrc: Register,
}

/// The register block of USART instance `port`, for ports 0 through 3.
pub open spec fn spec_block_for_port(port: int) -> SerialRegisterBlock {
    if port == 0 {
        SerialRegisterBlock {
            udr: Register::UDR0,
            ubrrh: Register::UBRR0H,
            ubrrl: Register::UBRR0L,
            ucsra: Register::UCSR0A,
            ucsrb: Register::UCSR0B,
            ucsrc: Register::UCSR0C,
        }
    } else if port == 1 {
        SerialRegisterBlock {
            udr: Register::UDR1,
            ubrrh: Register::UBRR1H,
            ubrrl: Register::UBRR1L,
            ucsra: Register::UCSR1A,
            ucsrb: Register::UCSR1B,
            ucsrc: Register::UCSR1C,
        }
    } else if port == 2 {
        SerialRegisterBlock {
            udr: Register::UDR2,
            ubrrh: Register::UBRR2H,
            ubrrl: Register::UBRR2L,
            ucsra: Register::UCSR2A,
            ucsrb: Register::UCSR2B,
            ucsrc: Register::UCSR2C,
        }
    } else {
        SerialRegisterBlock {
            udr: Register::UDR3,
            ubrrh: Register::UBRR3H,
            ubrrl: Register::UBRR3L,
            ucsra: Register::UCSR3A,
            ucsrb: Register::UCSR3B,
            ucsrc: Register::UCSR3C,
        }
    }
}

/// The register block of USART instance `port`.
pub fn block_for_port(port: u8) -> (b: SerialRegisterBlock)
    requires
        port < 4,
    ensures
        b == spec_block_for_port(port as int),
{
    if port == 0 {
        SerialRegisterBlock {
            udr: Register::UDR0,
            ubrrh: Register::UBRR0H,
            ubrrl: Register::UBRR0L,
            ucsra: Register::UCSR0A,
            ucsrb: Register::UCSR0B,
            ucsrc: Register::UCSR0C,
        }
    } else if port == 1 {
        SerialRegisterBlock {
            udr: Register::UDR1,
            ubrrh: Register::UBRR1H,
            ubrrl: Register::UBRR1L,
            ucsra: Register::UCSR1A,
            ucsrb: Register::UCSR1B,
            ucsrc: Register::UCSR1C,
        }
    } else if port == 2 {
        SerialRegisterBlock {
            udr: Register::UDR2,
            ubrrh: Register::UBRR2H,
            ubrrl: Register::UBRR2L,
            ucsra: Register::UCSR2A,
            ucsrb: Register::UCSR2B,
            ucsrc: Register::UCSR2C,
        }
    } else {
        SerialRegisterBlock {
            udr: Register::UDR3,
            ubrrh: Register::UBRR3H,
            ubrrl: Register::UBRR3L,
            ucsra: Register::UCSR3A,
            ucsrb: Register::UCSR3B,
            ucsrc: Register::UCSR3C,
        }
    }
}

/// The baud-rate divisor the hardware needs for a given clock frequency and
/// baud rate: `floor(clock / (16 * baud)) - 1`, with truncating unsigned
/// division.
pub open spec fn baud_divisor(clock: int, baud: int) -> int
    recommends
        baud >= 1,
{
    clock / (16 * baud) - 1
}

/// Which way a byte moves through the data register.
#[derive(Copy, Clone)]
pub enum Direction {
    /// The driver writes bytes to the data register.
    Transmit,
    /// The driver reads bytes from the data register.
    Receive,
}

/// The status flag a transfer in direction `dir` busy-waits on.
pub open spec fn spec_poll_flag(dir: Direction) -> u8 {
    match dir {
        Direction::Transmit => FLAG_DATA_EMPTY,
        Direction::Receive => FLAG_RX_COMPLETE,
    }
}

/// A read of the status register at `status` that observed `flag` clear.
pub open spec fn is_clear_poll(e: Access, status: u16, flag: u8) -> bool {
    match e {
        Access::Read { addr, val } => addr == status && val & flag == 0,
        Access::Write { .. } => false,
    }
}

/// A read of the status register at `status` that observed `flag` set.
pub open spec fn is_set_poll(e: Access, status: u16, flag: u8) -> bool {
    match e {
        Access::Read { addr, val } => addr == status && val & flag != 0,
        Access::Write { .. } => false,
    }
}

/// Every access in `s` is a poll of `status` that observed `flag` clear.
pub open spec fn all_clear_polls(s: Seq<Access>, status: u16, flag: u8) -> bool {
    forall|j: int| 0 <= j < s.len() ==> is_clear_poll(s[j], status, flag)
}

/// One complete busy-wait on `status`: zero or more polls that observed
/// `flag` clear, then one that observed it set.
pub open spec fn poll_then_ready(s: Seq<Access>, status: u16, flag: u8) -> bool {
    &&& s.len() >= 1
    &&& all_clear_polls(s.take(s.len() - 1), status, flag)
    &&& is_set_poll(s[s.len() - 1], status, flag)
}

/// The data-register access that moves `byte` in direction `dir`.
pub open spec fn transfer_event(blk: SerialRegisterBlock, dir: Direction, byte: u8) -> Access {
    match dir {
        Direction::Transmit => Access::Write { addr: blk.udr.spec_addr(), val: byte },
        Direction::Receive => Access::Read { addr: blk.udr.spec_addr(), val: byte },
    }
}

/// Whether `e` is a data-register access of `blk` in direction `dir`,
/// whatever byte it moves.
pub open spec fn is_transfer_event(e: Access, blk: SerialRegisterBlock, dir: Direction) -> bool {
    match e {
        Access::Read { addr, .. } => addr == blk.udr.spec_addr() && dir == Direction::Receive,
        Access::Write { addr, .. } => addr == blk.udr.spec_addr() && dir == Direction::Transmit,
    }
}

/// The access trace of one complete transfer of `data` through the block
/// `blk` in direction `dir`: for each byte in order, a busy-wait on the
/// status register that ends the moment the ready flag is observed set,
/// immediately followed by the one data-register access that moves the byte —
/// and nothing else.
pub open spec fn transfer_trace_ok(
    t: Seq<Access>,
    blk: SerialRegisterBlock,
    dir: Direction,
    data: Seq<u8>,
) -> bool
    decreases t.len(),
{
    let status = blk.ucsra.spec_addr();
    let flag = spec_poll_flag(dir);
    if data.len() == 0 {
        t.len() == 0
    } else if t.len() == 0 {
        false
    } else if is_clear_poll(t[0], status, flag) {
        transfer_trace_ok(t.skip(1), blk, dir, data)
    } else if is_set_poll(t[0], status, flag) {
        if t.len() < 2 {
            false
        } else {
            t[1] == transfer_event(blk, dir, data[0]) && transfer_trace_ok(
                t.skip(2),
                blk,
                dir,
                data.skip(1),
            )
        }
    } else {
        false
    }
}

/// The exact access trace of `Serial::init` for a driver with divisor
/// `divisor` bound to `blk`: the divisor's two halves to the baud registers,
/// then the enable bits, then the frame format.
pub open spec fn init_trace(blk: SerialRegisterBlock, divisor: u16) -> Seq<Access> {
    seq![
        Access::Write { addr: blk.ubrrh.spec_addr(), val: (divisor >> 8) as u8 },
        Access::Write { addr: blk.ubrrl.spec_addr(), val: divisor as u8 },
        Access::Write { addr: blk.ucsrb.spec_addr(), val: RX_ENABLE | TX_ENABLE },
        Access::Write { addr: blk.ucsrc.spec_addr(), val: FRAME_8N1 },
    ]
}

/// The byte an access moved.
pub open spec fn access_value(e: Access) -> u8 {
    match e {
        Access::Read { val, .. } => val,
        Access::Write { val, .. } => val,
    }
}

/// The bytes moved through the data register of `blk` in direction `dir`
/// over the course of `t`, in order: the values of `t`'s data-register writes
/// (transmit) or data-register reads (receive).
pub open spec fn transfer_values(t: Seq<Access>, blk: SerialRegisterBlock, dir: Direction) -> Seq<
    u8,
>
    decreases t.len(),
{
    if t.len() == 0 {
        Seq::empty()
    } else if is_transfer_event(t[0], blk, dir) {
        seq![access_value(t[0])] + transfer_values(t.skip(1), blk, dir)
    } else {
        transfer_values(t.skip(1), blk, dir)
    }
}

/// The register at position `k` of a block, for `k` in 0..6.
pub open spec fn block_register(blk: SerialRegisterBlock, k: int) -> Register {
    if k == 0 {
        blk.udr
    } else if k == 1 {
        blk.ubrrh
    } else if k == 2 {
        blk.ubrrl
    } else if k == 3 {
        blk.ucsra
    } else if k == 4 {
        blk.ucsrb
    } else {
        blk.ucsrc
    }
}

/// Ports 0 through 3 map to four distinct, non-overlapping register blocks:
/// all twenty-four register addresses across the four blocks are pairwise
/// distinct. In particular the six registers within each block are distinct,
/// and no two ports share any register.
pub proof fn lemma_port_blocks_distinct()
    ensures
        forall|p1: int, p2: int, k1: int, k2: int|
            0 <= p1 < 4 && 0 <= p2 < 4 && 0 <= k1 < 6 && 0 <= k2 < 6 && (p1 != p2 || k1 != k2)
                ==> #[trigger] block_register(spec_block_for_port(p1), k1).spec_addr()
                != #[trigger] block_register(spec_block_for_port(p2), k2).spec_addr(),
{
}

/// A transfer moves exactly the bytes it was asked to: in a trace that
/// satisfies [`transfer_trace_ok`] for `data`, the bytes moved through the
/// data register are `data` itself, in the same order — nothing dropped,
/// added, duplicated or reordered.
pub proof fn lemma_transfer_values(
    t: Seq<Access>,
    blk: SerialRegisterBlock,
    dir: Direction,
    data: Seq<u8>,
)
    requires
        transfer_trace_ok(t, blk, dir, data),
        blk.ucsra.spec_addr() != blk.udr.spec_addr(),
    ensures
        transfer_values(t, blk, dir) == data,
    decreases t.len(),
{
    let status = blk.ucsra.spec_addr();
    let flag = spec_poll_flag(dir);
    if data.len() == 0 {
        assert(transfer_values(t, blk, dir) =~= data);
    } else if is_clear_poll(t[0], status, flag) {
        lemma_transfer_values(t.skip(1), blk, dir, data);
        assert(!is_transfer_event(t[0], blk, dir));
    } else {
        lemma_transfer_values(t.skip(2), blk, dir, data.skip(1));
        assert(!is_transfer_event(t[0], blk, dir));
        assert(t.skip(1)[0] == t[1]);
        assert(is_transfer_event(t[1], blk, dir));
        assert(access_value(t[1]) == data[0]);
        assert(t.skip(1).skip(1) =~= t.skip(2));
        assert(transfer_values(t, blk, dir) == transfer_values(t.skip(1), blk, dir));
        assert(transfer_values(t.skip(1), blk, dir) == seq![access_value(t.skip(1)[0])]
            + transfer_values(t.skip(1).skip(1), blk, dir));
        assert(transfer_values(t, blk, dir) == seq![data[0]] + transfer_values(
            t.skip(2),
            blk,
            dir,
        ));
        assert(seq![data[0]] + data.skip(1) =~= data);
    }
}

/// Every data-register access of a transfer is gated by its busy-wait: in a
/// trace that satisfies [`transfer_trace_ok`], each data-register access is
/// immediately preceded by a poll of the status register that observed the
/// ready flag set.
pub proof fn lemma_transfer_gated_by_poll(
    t: Seq<Access>,
    blk: SerialRegisterBlock,
    dir: Direction,
    data: Seq<u8>,
)
    requires
        transfer_trace_ok(t, blk, dir, data),
        blk.ucsra.spec_addr() != blk.udr.spec_addr(),
    ensures
        forall|i: int|
            0 <= i < t.len() && #[trigger] is_transfer_event(t[i], blk, dir) ==> 1 <= i
                && is_set_poll(t[i - 1], blk.ucsra.spec_addr(), spec_poll_flag(dir)),
    decreases t.len(),
{
    let status = blk.ucsra.spec_addr();
    let flag = spec_poll_flag(dir);
    if data.len() == 0 {
    } else if is_clear_poll(t[0], status, flag) {
        lemma_transfer_gated_by_poll(t.skip(1), blk, dir, data);
        assert forall|i: int|
            0 <= i < t.len() && #[trigger] is_transfer_event(t[i], blk, dir) implies 1 <= i
            && is_set_poll(t[i - 1], status, flag) by {
            assert(!is_transfer_event(t[0], blk, dir));
            assert(t.skip(1)[i - 1] == t[i]);
            assert(i - 1 >= 1);
            assert(t.skip(1)[i - 2] == t[i - 1]);
        }
    } else {
        lemma_transfer_gated_by_poll(t.skip(2), blk, dir, data.skip(1));
        assert forall|i: int|
            0 <= i < t.len() && #[trigger] is_transfer_event(t[i], blk, dir) implies 1 <= i
            && is_set_poll(t[i - 1], status, flag) by {
            assert(!is_transfer_event(t[0], blk, dir));
            if i >= 2 {
                assert(t.skip(2)[i - 2] == t[i]);
                assert(i - 2 >= 1);
                assert(t.skip(2)[i - 3] == t[i - 1]);
            }
        }
    }
}

/// Appending one access commutes with dropping a prefix.
proof fn lemma_skip_push<A>(s: Seq<A>, e: A, k: int)
    requires
        0 <= k <= s.len(),
    ensures
        s.push(e).skip(k) == s.skip(k).push(e),
{
    assert(s.push(e).skip(k) =~= s.skip(k).push(e));
}

/// A completed busy-wait followed by the matching data-register access is the
/// trace of a one-byte transfer.
proof fn lemma_poll_then_transfer(
    s: Seq<Access>,
    blk: SerialRegisterBlock,
    dir: Direction,
    byte: u8,
)
    requires
        poll_then_ready(s, blk.ucsra.spec_addr(), spec_poll_flag(dir)),
    ensures
        transfer_trace_ok(s.push(transfer_event(blk, dir, byte)), blk, dir, seq![byte]),
    decreases s.len(),
{
    let status = blk.ucsra.spec_addr();
    let flag = spec_poll_flag(dir);
    let t = s.push(transfer_event(blk, dir, byte));
    if s.len() == 1 {
        assert(is_set_poll(t[0], status, flag));
        assert(t[1] == transfer_event(blk, dir, byte));
        assert(t.skip(2) =~= Seq::<Access>::empty());
        assert(seq![byte].skip(1) =~= Seq::<u8>::empty());
        assert(transfer_trace_ok(Seq::<Access>::empty(), blk, dir, Seq::<u8>::empty()));
        assert(transfer_trace_ok(t.skip(2), blk, dir, seq![byte].skip(1)));
        assert(transfer_trace_ok(t, blk, dir, seq![byte]));
    } else {
        assert(is_clear_poll(s[0], status, flag)) by {
            assert(s.take(s.len() - 1)[0] == s[0]);
        }
        assert(poll_then_ready(s.skip(1), status, flag)) by {
            assert forall|j: int| 0 <= j < s.skip(1).len() - 1 implies #[trigger] is_clear_poll(
                s.skip(1).take(s.skip(1).len() - 1)[j],
                status,
                flag,
            ) by {
                assert(s.skip(1).take(s.skip(1).len() - 1)[j] == s.take(s.len() - 1)[j + 1]);
            }
            assert(s.skip(1)[s.skip(1).len() - 1] == s[s.len() - 1]);
        }
        lemma_poll_then_transfer(s.skip(1), blk, dir, byte);
        assert(t.skip(1) =~= s.skip(1).push(transfer_event(blk, dir, byte)));
    }
}

/// Transfer traces compose: a trace for `d1` followed by a trace for `d2` is
/// a trace for `d1 + d2`.
proof fn lemma_transfer_append(
    t1: Seq<Access>,
    t2: Seq<Access>,
    blk: SerialRegisterBlock,
    dir: Direction,
    d1: Seq<u8>,
    d2: Seq<u8>,
)
    requires
        transfer_trace_ok(t1, blk, dir, d1),
        transfer_trace_ok(t2, blk, dir, d2),
    ensures
        transfer_trace_ok(t1 + t2, blk, dir, d1 + d2),
    decreases t1.len(),
{
    let status = blk.ucsra.spec_addr();
    let flag = spec_poll_flag(dir);
    if d1.len() == 0 {
        assert(t1 + t2 =~= t2);
        assert(d1 + d2 =~= d2);
    } else if is_clear_poll(t1[0], status, flag) {
        lemma_transfer_append(t1.skip(1), t2, blk, dir, d1, d2);
        assert((t1 + t2).skip(1) =~= t1.skip(1) + t2);
        assert((t1 + t2)[0] == t1[0]);
    } else {
        lemma_transfer_append(t1.skip(2), t2, blk, dir, d1.skip(1), d2);
        assert((t1 + t2).skip(2) =~= t1.skip(2) + t2);
        assert((d1 + d2).skip(1) =~= d1.skip(1) + d2);
        assert((t1 + t2)[0] == t1[0]);
        assert((t1 + t2)[1] == t1[1]);
        assert((d1 + d2)[0] == d1[0]);
    }
}

/// Busy-wait until a read of `status` observes `flag` set.
///
/// The trace grows by one completed busy-wait: zero or more polls that saw
/// the flag clear, then the one that saw it set.
fn wait_ready<R: RegisterFile>(rf: &mut R, status: Register, flag: u8)
    requires
        crate::register::is_status_addr(status.spec_addr()),
        flag == FLAG_DATA_EMPTY || flag == FLAG_RX_COMPLETE,
    ensures
        old(rf).trace().is_prefix_of(final(rf).trace()),
        poll_then_ready(
            final(rf).trace().skip(old(rf).trace().len() as int),
            status.spec_addr(),
            flag,
        ),
{
    let ghost t0 = rf.trace();
    let a = status.addr();
    loop
        invariant_except_break
            a == status.spec_addr(),
            crate::register::is_status_addr(a),
            flag == FLAG_DATA_EMPTY || flag == FLAG_RX_COMPLETE,
            t0.is_prefix_of(rf.trace()),
            all_clear_polls(rf.trace().skip(t0.len() as int), a, flag),
        ensures
            t0.is_prefix_of(rf.trace()),
            poll_then_ready(rf.trace().skip(t0.len() as int), a, flag),
        decreases rf.poll_slack(),
    {
        let ghost before = rf.trace();
        let v = rf.read(a);
        proof {
            lemma_skip_push(before, Access::Read { addr: a, val: v }, t0.len() as int);
        }
        if v & flag != 0 {
            proof {
                let s = rf.trace().skip(t0.len() as int);
                assert(s.take(s.len() - 1) =~= before.skip(t0.len() as int));
            }
            break;
        }
        proof {
            assert(v & READY_FLAGS != READY_FLAGS) by (bit_vector)
                requires
                    v & flag == 0 && (flag == 0x20 || flag == 0x80) && READY_FLAGS == 0xA0u8,
            ;
        }
    }
}

/// A USART driver instance: the computed baud-rate divisor and the register
/// block of the port it drives.
pub struct Serial {
    ubrr: u16,
    registers: SerialRegisterBlock,
}

impl Serial {
    /// A driver is always bound to the register block of one of the four
    /// USART ports.
    #[verifier::type_invariant]
    spec fn bound_to_port(self) -> bool {
        exists|p: int| 0 <= p < 4 && self.registers == spec_block_for_port(p)
    }

    /// The 16-bit baud-rate divisor this driver was constructed with.
    pub closed spec fn divisor(self) -> u16 {
        self.ubrr
    }

    /// The register block this driver is bound to.
    pub closed spec fn block(self) -> SerialRegisterBlock {
        self.registers
    }

    /// Create a driver for USART `port` running at `baud_rate`.
    ///
    /// The baud rate must be one for which the divisor formula neither
    /// underflows (baud rate too high for the clock) nor overflows 16 bits
    /// (baud rate too low); this is purely computational and touches no
    /// hardware.
    pub fn new(port: u8, baud_rate: u32) -> (s: Serial)
        requires
            port < 4,
            baud_rate >= 1,
            16 * baud_rate <= CLK,
            baud_divisor(CLK as int, baud_rate as int) <= u16::MAX,
        ensures
            s.divisor() == baud_divisor(CLK as int, baud_rate as int),
            s.block() == spec_block_for_port(port as int),
    {
        proof {
            let d = 16 * (baud_rate as int);
            assert(CLK as int / d >= 1) by (nonlinear_arith)
                requires
                    0 < d <= CLK as int,
            ;
        }
        let ubrr = (CLK / (16 * baud_rate) - 1) as u16;
        let registers = block_for_port(port);
        let s = Serial { ubrr, registers };
        proof {
            assert(s.registers == spec_block_for_port(port as int));
        }
        s
    }

    /// The computed 16-bit divisor, for a caller that programs the baud-rate
    /// registers itself.
    pub fn ubrr(&self) -> (d: u16)
        ensures
            d == self.divisor(),
    {
        self.ubrr
    }

    /// Program the port: write the divisor's high byte to the baud-high
    /// register and its low byte to the baud-low register, then enable
    /// receive and transmit, then select the 8-data-bit / no-parity /
    /// 1-stop-bit frame format.
    ///
    /// The baud rate is in place before any control register is written; the
    /// exact four-write trace is pinned down by [`init_trace`]. Must run
    /// before any `tx` or `rx` call: transferring against an unconfigured
    /// port yields hardware-level garbage, which no software check here can
    /// detect.
    pub fn init<R: RegisterFile>(&self, rf: &mut R)
        ensures
            final(rf).trace() == old(rf).trace() + init_trace(self.block(), self.divisor()),
    {
        // set the baud rate
        rf.write(self.registers.ubrrh.addr(), (self.ubrr >> 8) as u8);
        rf.write(self.registers.ubrrl.addr(), self.ubrr as u8);
        // enable rx/tx on the USART
        rf.write(self.registers.ucsrb.addr(), RX_ENABLE | TX_ENABLE);
        // select the frame format
        rf.write(self.registers.ucsrc.addr(), FRAME_8N1);
        proof {
            assert(rf.trace() =~= old(rf).trace() + init_trace(self.registers, self.ubrr));
        }
    }

    /// Transmit every byte of `buf`, front to back: busy-wait until the
    /// data-register-empty flag is observed set, then write the byte to the
    /// data register.
    ///
    /// The trace grows by exactly one transmit transfer of `buf`
    /// ([`transfer_trace_ok`]): each byte is written to the data register in
    /// its original order, each write gated by its own completed busy-wait,
    /// and no other register is touched. Blocks until the hardware has
    /// accepted every byte; there is no timeout.
    pub fn tx<R: RegisterFile>(&self, rf: &mut R, buf: &[u8])
        ensures
            old(rf).trace().is_prefix_of(final(rf).trace()),
            transfer_trace_ok(
                final(rf).trace().skip(old(rf).trace().len() as int),
                self.block(),
                Direction::Transmit,
                buf@,
            ),
    {
        proof {
            use_type_invariant(self);
            assert(crate::register::is_status_addr(self.registers.ucsra.spec_addr()));
        }
        let ghost t0 = rf.trace();
        let mut i: usize = 0;
        while i < buf.len()
            invariant
                i <= buf.len(),
                crate::register::is_status_addr(self.registers.ucsra.spec_addr()),
                t0.is_prefix_of(rf.trace()),
                transfer_trace_ok(
                    rf.trace().skip(t0.len() as int),
                    self.registers,
                    Direction::Transmit,
                    buf@.take(i as int),
                ),
            decreases buf.len() - i,
        {
            let ghost t1 = rf.trace();
            wait_ready(rf, self.registers.ucsra, FLAG_DATA_EMPTY);
            let ghost polls = rf.trace().skip(t1.len() as int);
            let ghost t2 = rf.trace();
            rf.write(self.registers.udr.addr(), buf[i]);
            proof {
                let ev = transfer_event(self.registers, Direction::Transmit, buf@[i as int]);
                lemma_poll_then_transfer(polls, self.registers, Direction::Transmit, buf@[i as int]);
                lemma_transfer_append(
                    t1.skip(t0.len() as int),
                    polls.push(ev),
                    self.registers,
                    Direction::Transmit,
                    buf@.take(i as int),
                    seq![buf@[i as int]],
                );
                lemma_skip_push(t2, ev, t0.len() as int);
                assert(t2.skip(t0.len() as int) =~= t1.skip(t0.len() as int) + polls);
                assert(rf.trace().skip(t0.len() as int) =~= t1.skip(t0.len() as int) + polls.push(
                    ev,
                ));
                assert(buf@.take(i + 1 as int) =~= buf@.take(i as int) + seq![buf@[i as int]]);
            }
            i += 1;
        }
        proof {
            assert(buf@.take(buf@.len() as int) =~= buf@);
        }
    }

    /// Receive one byte into every slot of `buf`, in index order: busy-wait
    /// until the receive-complete flag is observed set, then read the data
    /// register into the slot.
    ///
    /// A buffer of length 0 performs no register access at all. Otherwise
    /// the trace grows by exactly one receive transfer of the buffer's final
    /// contents ([`transfer_trace_ok`]): slot `j` holds the byte the `j`-th
    /// data-register read returned, each read gated by its own completed
    /// busy-wait. Blocks until every byte has arrived; there is no timeout.
    pub fn rx<R: RegisterFile>(&self, rf: &mut R, buf: &mut [u8])
        ensures
            final(buf)@.len() == old(buf)@.len(),
            old(rf).trace().is_prefix_of(final(rf).trace()),
            transfer_trace_ok(
                final(rf).trace().skip(old(rf).trace().len() as int),
                self.block(),
                Direction::Receive,
                final(buf)@,
            ),
    {
        proof {
            use_type_invariant(self);
            assert(crate::register::is_status_addr(self.registers.ucsra.spec_addr()));
        }
        let ghost t0 = rf.trace();
        let n = buf.len();
        let mut i: usize = 0;
        while i < n
            invariant
                i <= n,
                buf@.len() == n,
                crate::register::is_status_addr(self.registers.ucsra.spec_addr()),
                t0.is_prefix_of(rf.trace()),
                transfer_trace_ok(
                    rf.trace().skip(t0.len() as int),
                    self.registers,
                    Direction::Receive,
                    buf@.take(i as int),
                ),
            decreases n - i,
        {
            let ghost t1 = rf.trace();
            wait_ready(rf, self.registers.ucsra, FLAG_RX_COMPLETE);
            let ghost polls = rf.trace().skip(t1.len() as int);
            let ghost t2 = rf.trace();
            let byte = rf.read(self.registers.udr.addr());
            let ghost pre = buf@;
            // An out-of-range index is silently skipped instead of faulting;
            // the loop bound keeps this guard from ever failing.
            if i < buf.len() {
                buf[i] = byte;
            }
            proof {
                let ev = transfer_event(self.registers, Direction::Receive, byte);
                lemma_poll_then_transfer(polls, self.registers, Direction::Receive, byte);
                assert(buf@.take(i as int) =~= pre.take(i as int));
                lemma_transfer_append(
                    t1.skip(t0.len() as int),
                    polls.push(ev),
                    self.registers,
                    Direction::Receive,
                    buf@.take(i as int),
                    seq![byte],
                );
                lemma_skip_push(t2, ev, t0.len() as int);
                assert(t2.skip(t0.len() as int) =~= t1.skip(t0.len() as int) + polls);
                assert(rf.trace().skip(t0.len() as int) =~= t1.skip(t0.len() as int) + polls.push(
                    ev,
                ));
                assert(buf@.take(i + 1 as int) =~= buf@.take(i as int) + seq![byte]);
            }
            i += 1;
        }
        proof {
            assert(buf@.take(n as int) =~= buf@);
        }
    }
}

} // verus!

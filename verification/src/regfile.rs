//! The register-access capability the driver runs against.
//!
//! Every hardware access the driver makes goes through a [`RegisterFile`],
//! which records the access in a ghost trace. The driver's contracts are
//! stated over that trace, so they pin down exactly which registers are
//! touched, with which values, and in which order. [`SimRegisterFile`] is a
//! verified in-memory implementation for tests; a production binding
//! implements the same trait with volatile memory access.

use vstd::prelude::*;

use crate::register::{check_data_addr, check_status_addr, is_status_addr};

verus! {

/// Both status flags the driver ever polls for: receive-complete (bit 7)
/// and data-register-empty (bit 5) of a control/status register A.
pub const READY_FLAGS: u8 = 0xA0;

/// One observable hardware access: a single-byte read or write of one
/// memory-mapped register.
#[derive(Copy, Clone, Debug, PartialEq, Eq, Structural)]
pub enum Access {
    /// A one-byte load from `addr` that returned `val`.
    Read { addr: u16, val: u8 },
    /// A one-byte store of `val` to `addr`.
    Write { addr: u16, val: u8 },
}

/// A capability for single-byte accesses to the memory-mapped USART
/// registers.
///
/// Each access appends to `trace()`; nothing ever removes or reorders trace
/// entries, so an implementation cannot elide, duplicate, or reorder hardware
/// accesses without violating its contract.
///
/// A register file also promises that busy-waiting on a status register
/// terminates: each read of a status register that observes a ready flag
/// clear consumes `poll_slack()`, and once the slack is exhausted every
/// status read reports both ready flags set. The simulated register file
/// makes the slack an explicit test hook; hardware with a live serial line
/// provides such a bound, while a disconnected line does not — there the
/// driver blocks, as the original busy-wait semantics demand.
pub trait RegisterFile: Sized {
    /// All accesses performed so far, oldest first.
    spec fn trace(&self) -> Seq<Access>;

    /// How many more status reads may observe a ready flag clear.
    spec fn poll_slack(&self) -> nat;

    /// Perform one single-byte load from the register at `addr`.
    fn read(&mut self, addr: u16) -> (val: u8)
        ensures
            final(self).trace() == old(self).trace().push(Access::Read { addr, val }),
            is_status_addr(addr) && old(self).poll_slack() == 0 ==> val & READY_FLAGS
                == READY_FLAGS,
            is_status_addr(addr) && val & READY_FLAGS != READY_FLAGS ==> final(self).poll_slack()
                < old(self).poll_slack();

    /// Perform one single-byte store of `val` to the register at `addr`.
    fn write(&mut self, addr: u16, val: u8)
        ensures
            final(self).trace() == old(self).trace().push(Access::Write { addr, val });
}

/// A simulated register file for tests: a byte of backing store per address,
/// an access log that tests can inspect, and two hooks — a poll-slack
/// counter that delays the ready flags for a chosen number of status reads,
/// and a queue of bytes the data registers hand out to simulate arriving
/// serial data.
pub struct SimRegisterFile {
    mem: Vec<u8>,
    rx_fifo: Vec<u8>,
    slack: u32,
    log: Vec<Access>,
}

impl SimRegisterFile {
    /// The byte currently stored at `addr`. The backing store grows on
    /// demand; an address never written reads as zero.
    pub closed spec fn register_value(self, addr: u16) -> u8 {
        if addr < self.mem@.len() {
            self.mem@[addr as int]
        } else {
            0
        }
    }

    /// The bytes still queued for the data registers to hand out.
    pub closed spec fn rx_queue(self) -> Seq<u8> {
        self.rx_fifo@
    }

    /// A fresh register file: every register zero, no queued receive data,
    /// no poll slack (status reads report ready at once), empty log.
    pub fn new() -> (s: SimRegisterFile)
        ensures
            s.trace() == Seq::<Access>::empty(),
            s.poll_slack() == 0,
            s.rx_queue() == Seq::<u8>::empty(),
            forall|a: u16| s.register_value(a) == 0,
    {
        SimRegisterFile { mem: Vec::new(), rx_fifo: Vec::new(), slack: 0, log: Vec::new() }
    }

    /// Read the backing store.
    fn mem_get(&self, addr: u16) -> (val: u8)
        ensures
            val == self.register_value(addr),
    {
        if (addr as usize) < self.mem.len() {
            self.mem[addr as usize]
        } else {
            0
        }
    }

    /// Update the backing store, growing it up to `addr` if needed.
    fn mem_set(&mut self, addr: u16, val: u8)
        ensures
            final(self).register_value(addr) == val,
            forall|a: u16|
                a != addr ==> final(self).register_value(a) == old(self).register_value(a),
            final(self).rx_fifo == old(self).rx_fifo,
            final(self).slack == old(self).slack,
            final(self).log == old(self).log,
    {
        while self.mem.len() <= addr as usize
            invariant
                forall|a: u16| self.register_value(a) == old(self).register_value(a),
                self.rx_fifo == old(self).rx_fifo,
                self.slack == old(self).slack,
                self.log == old(self).log,
            decreases addr as int + 1 - self.mem@.len(),
        {
            self.mem.push(0);
        }
        self.mem.set(addr as usize, val);
    }

    /// Test hook: let the next `n` status reads observe the ready flags as
    /// stored, before readiness is forced.
    pub fn set_poll_slack(&mut self, n: u32)
        ensures
            final(self).poll_slack() == n,
            final(self).trace() == old(self).trace(),
            final(self).rx_queue() == old(self).rx_queue(),
            forall|a: u16| final(self).register_value(a) == old(self).register_value(a),
    {
        self.slack = n;
    }

    /// Store `val` at `addr` without logging an access, as hardware does when
    /// it changes a register behind the software's back.
    pub fn set_register(&mut self, addr: u16, val: u8)
        ensures
            final(self).register_value(addr) == val,
            forall|a: u16|
                a != addr ==> final(self).register_value(a) == old(self).register_value(a),
            final(self).trace() == old(self).trace(),
            final(self).poll_slack() == old(self).poll_slack(),
            final(self).rx_queue() == old(self).rx_queue(),
    {
        self.mem_set(addr, val);
    }

    /// Queue `byte` as the next value a data register hands out, after those
    /// already queued.
    pub fn push_rx_byte(&mut self, byte: u8)
        ensures
            final(self).rx_queue() == old(self).rx_queue().push(byte),
            final(self).trace() == old(self).trace(),
            final(self).poll_slack() == old(self).poll_slack(),
            forall|a: u16| final(self).register_value(a) == old(self).register_value(a),
    {
        self.rx_fifo.push(byte);
    }

    /// The accesses performed so far, oldest first.
    pub fn log(&self) -> (l: &Vec<Access>)
        ensures
            l@ == self.trace(),
    {
        &self.log
    }
}

impl RegisterFile for SimRegisterFile {
    closed spec fn trace(&self) -> Seq<Access> {
        self.log@
    }

    closed spec fn poll_slack(&self) -> nat {
        self.slack as nat
    }

    fn read(&mut self, addr: u16) -> (val: u8) {
        let val: u8;
        if check_status_addr(addr) {
            if self.slack > 0 {
                self.slack = self.slack - 1;
                val = self.mem_get(addr);
            } else {
                let m = self.mem_get(addr);
                val = m | READY_FLAGS;
                proof {
                    assert((m | 0xA0u8) & 0xA0u8 == 0xA0u8) by (bit_vector);
                }
            }
        } else if check_data_addr(addr) && self.rx_fifo.len() > 0 {
            val = self.rx_fifo.remove(0);
        } else {
            val = self.mem_get(addr);
        }
        self.log.push(Access::Read { addr, val });
        val
    }

    fn write(&mut self, addr: u16, val: u8) {
        self.mem_set(addr, val);
        self.log.push(Access::Write { addr, val });
    }
}

} // verus!

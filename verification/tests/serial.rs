use aqmon::regfile::{Access, RegisterFile, SimRegisterFile};
use aqmon::serial::{block_for_port, Serial};

fn read(addr: u16, val: u8) -> Access {
    Access::Read { addr, val }
}

fn write(addr: u16, val: u8) -> Access {
    Access::Write { addr, val }
}

// 16_000_000 / (16 * 9600) - 1 = 103: init writes high byte 0, low byte 103,
// and the baud registers are written before any control register.
#[test]
fn divisor_9600_and_init_order() {
    let mut sim = SimRegisterFile::new();
    let s = Serial::new(0, 9600);
    s.init(&mut sim);
    assert_eq!(
        *sim.log(),
        vec![
            write(0xC5, 0),    // baud high
            write(0xC4, 103),  // baud low
            write(0xC1, 0x18), // control B: receive + transmit enable
            write(0xC2, 0x06), // control C: 8 data bits, no parity, 1 stop bit
        ]
    );
}

// 16_000_000 / (16 * 115200) - 1 = 7.
#[test]
fn divisor_115200() {
    let mut sim = SimRegisterFile::new();
    let s = Serial::new(0, 115200);
    s.init(&mut sim);
    assert_eq!(sim.log()[0..2], [write(0xC5, 0), write(0xC4, 7)]);
}

// An empty transmit buffer performs no register access at all.
#[test]
fn tx_empty_no_access() {
    let mut sim = SimRegisterFile::new();
    let s = Serial::new(0, 9600);
    s.tx(&mut sim, &[]);
    assert!(sim.log().is_empty());
}

// Every byte is written to the data register in original order, each write
// preceded by at least one status poll, and the call terminates once the
// simulated empty flag eventually becomes set: here the flag reads clear for
// the first two polls and set from then on.
#[test]
fn tx_writes_bytes_in_order_each_gated_by_poll() {
    let mut sim = SimRegisterFile::new();
    sim.set_poll_slack(2);
    let s = Serial::new(0, 9600);
    s.tx(&mut sim, &[0xDE, 0xAD]);
    assert_eq!(
        *sim.log(),
        vec![
            read(0xC0, 0x00), // empty flag still clear
            read(0xC0, 0x00), // empty flag still clear
            read(0xC0, 0xA0), // empty flag observed set
            write(0xC6, 0xDE),
            read(0xC0, 0xA0),
            write(0xC6, 0xAD),
        ]
    );
}

// A status register whose stored value already has the empty flag set is
// polled exactly once per byte.
#[test]
fn tx_ready_at_once_polls_once() {
    let mut sim = SimRegisterFile::new();
    sim.set_register(0xC0, 0x20);
    sim.set_poll_slack(5);
    let s = Serial::new(0, 9600);
    s.tx(&mut sim, &[0x42]);
    assert_eq!(*sim.log(), vec![read(0xC0, 0x20), write(0xC6, 0x42)]);
}

// rx of a zero-length buffer performs zero register accesses and returns.
#[test]
fn rx_zero_length_no_access() {
    let mut sim = SimRegisterFile::new();
    let s = Serial::new(0, 9600);
    let mut buf: Vec<u8> = Vec::new();
    s.rx(&mut sim, buf.as_mut_slice());
    assert!(sim.log().is_empty());
    assert!(buf.is_empty());
}

// rx fills every slot in index order, each read gated by a poll that
// observed the receive-complete flag set.
#[test]
fn rx_fills_slots_in_order() {
    let mut sim = SimRegisterFile::new();
    sim.push_rx_byte(0x11);
    sim.push_rx_byte(0x22);
    sim.push_rx_byte(0x33);
    let s = Serial::new(0, 9600);
    let mut buf: Vec<u8> = vec![0; 3];
    s.rx(&mut sim, buf.as_mut_slice());
    assert_eq!(buf, vec![0x11, 0x22, 0x33]);
    assert_eq!(
        *sim.log(),
        vec![
            read(0xC0, 0xA0),
            read(0xC6, 0x11),
            read(0xC0, 0xA0),
            read(0xC6, 0x22),
            read(0xC0, 0xA0),
            read(0xC6, 0x33),
        ]
    );
}

// rx also terminates when the receive-complete flag becomes set only after a
// bounded number of polls.
#[test]
fn rx_delayed_ready() {
    let mut sim = SimRegisterFile::new();
    sim.push_rx_byte(0x5A);
    sim.set_poll_slack(1);
    let s = Serial::new(0, 9600);
    let mut buf: Vec<u8> = vec![0; 1];
    s.rx(&mut sim, buf.as_mut_slice());
    assert_eq!(buf, vec![0x5A]);
    assert_eq!(
        *sim.log(),
        vec![read(0xC0, 0x00), read(0xC0, 0xA0), read(0xC6, 0x5A)]
    );
}

// Ports 0..3 map to four distinct, non-overlapping register blocks matching
// the datasheet's address table: all twenty-four addresses are pairwise
// distinct.
#[test]
fn port_blocks_distinct_and_documented() {
    let mut addrs: Vec<u16> = Vec::new();
    for port in 0..4u8 {
        let b = block_for_port(port);
        addrs.push(b.udr.addr());
        addrs.push(b.ubrrh.addr());
        addrs.push(b.ubrrl.addr());
        addrs.push(b.ucsra.addr());
        addrs.push(b.ucsrb.addr());
        addrs.push(b.ucsrc.addr());
    }
    let expected: Vec<u16> = vec![
        0xC6, 0xC5, 0xC4, 0xC0, 0xC1, 0xC2, // port 0
        0xCE, 0xCD, 0xCC, 0xC8, 0xC9, 0xCA, // port 1
        0xD6, 0xD5, 0xD4, 0xD0, 0xD1, 0xD2, // port 2
        0x136, 0x135, 0x134, 0x130, 0x131, 0x132, // port 3
    ];
    assert_eq!(addrs, expected);
    for i in 0..addrs.len() {
        for j in 0..addrs.len() {
            if i != j {
                assert_ne!(addrs[i], addrs[j]);
            }
        }
    }
}

// A driver bound to port 1 programs port 1's registers, not port 0's.
#[test]
fn init_port1_touches_port1_registers() {
    let mut sim = SimRegisterFile::new();
    let s = Serial::new(1, 9600);
    s.init(&mut sim);
    assert_eq!(
        *sim.log(),
        vec![
            write(0xCD, 0),
            write(0xCC, 103),
            write(0xC9, 0x18),
            write(0xCA, 0x06),
        ]
    );
}

// End to end: new(9600) on port 0, init, then tx("hello?") produces the baud
// writes, the two control writes, and six data writes with the ASCII codes of
// h, e, l, l, o, ?, each gated by an empty-flag poll.
#[test]
fn end_to_end_hello() {
    let mut sim = SimRegisterFile::new();
    let s = Serial::new(0, 9600);
    s.init(&mut sim);
    s.tx(&mut sim, b"hello?");
    let mut expected = vec![
        write(0xC5, 0),
        write(0xC4, 103),
        write(0xC1, 0x18),
        write(0xC2, 0x06),
    ];
    for &byte in b"hello?" {
        expected.push(read(0xC0, 0xA0));
        expected.push(write(0xC6, byte));
    }
    assert_eq!(*sim.log(), expected);
}

// A write through the register file is visible to a later read of the same
// address, and both accesses land in the log in order.
#[test]
fn sim_register_file_stores_bytes() {
    let mut sim = SimRegisterFile::new();
    sim.write(0x100, 0xAB);
    let v = sim.read(0x100);
    assert_eq!(v, 0xAB);
    assert_eq!(*sim.log(), vec![write(0x100, 0xAB), read(0x100, 0xAB)]);
}

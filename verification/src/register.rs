//! Register map of the four USART instances of the ATmega2560.
//!
//! Each USART owns six byte-wide registers at fixed addresses taken from the
//! datasheet: an I/O data register, the two halves of the baud-rate divisor,
//! and three control/status registers.

use vstd::prelude::*;

verus! {

/// One hardware register of a USART instance, identified by its fixed
/// memory-mapped address.
#[allow(non_camel_case_types)]
#[derive(Copy, Clone, Debug)]
pub enum Register {
    /// USART3 I/O data register
    UDR3,
    /// USART3 baud rate register high byte
    UBRR3H,
    /// USART3 baud rate register low byte
    UBRR3L,
    /// USART3 configuration
    UCSR3C,
    /// USART3 configuration
    UCSR3B,
    /// USART3 status
    UCSR3A,
    /// USART2 I/O data register
    UDR2,
    /// USART2 baud rate register high byte
    UBRR2H,
    /// USART2 baud rate register low byte
    UBRR2L,
    /// USART2 configuration
    UCSR2C,
    /// USART2 configuration
    UCSR2B,
    /// USART2 status
    UCSR2A,
    /// USART1 I/O data register
    UDR1,
    /// USART1 baud rate register high byte
    UBRR1H,
    /// USART1 baud rate register low byte
    UBRR1L,
    /// USART1 configuration
    UCSR1C,
    /// USART1 configuration
    UCSR1B,
    /// USART1 status
    UCSR1A,
    /// USART0 I/O data register
    UDR0,
    /// USART0 baud rate register high byte
    UBRR0H,
    /// USART0 baud rate register low byte
    UBRR0L,
    /// USART0 configuration
    UCSR0C,
    /// USART0 configuration
    UCSR0B,
    /// USART0 status
    UCSR0A,
}

impl Register {
    /// The memory-mapped address of this register, per the datasheet.
    pub open spec fn spec_addr(self) -> u16 {
        match self {
            Register::UDR3 => 0x136,
            Register::UBRR3H => 0x135,
            Register::UBRR3L => 0x134,
            Register::UCSR3C => 0x132,
            Register::UCSR3B => 0x131,
            Register::UCSR3A => 0x130,
            Register::UDR2 => 0xD6,
            Register::UBRR2H => 0xD5,
            Register::UBRR2L => 0xD4,
            Register::UCSR2C => 0xD2,
            Register::UCSR2B => 0xD1,
            Register::UCSR2A => 0xD0,
            Register::UDR1 => 0xCE,
            Register::UBRR1H => 0xCD,
            Register::UBRR1L => 0xCC,
            Register::UCSR1C => 0xCA,
            Register::UCSR1B => 0xC9,
            Register::UCSR1A => 0xC8,
            Register::UDR0 => 0xC6,
            Register::UBRR0H => 0xC5,
            Register::UBRR0L => 0xC4,
            Register::UCSR0C => 0xC2,
            Register::UCSR0B => 0xC1,
            Register::UCSR0A => 0xC0,
        }
    }

    /// The memory-mapped address of this register, per the datasheet.
    pub fn addr(self) -> (a: u16)
        ensures
            a == self.spec_addr(),
    {
        match self {
            Register::UDR3 => 0x136,
            Register::UBRR3H => 0x135,
            Register::UBRR3L => 0x134,
            Register::UCSR3C => 0x132,
            Register::UCSR3B => 0x131,
            Register::UCSR3A => 0x130,
            Register::UDR2 => 0xD6,
            Register::UBRR2H => 0xD5,
            Register::UBRR2L => 0xD4,
            Register::UCSR2C => 0xD2,
            Register::UCSR2B => 0xD1,
            Register::UCSR2A => 0xD0,
            Register::UDR1 => 0xCE,
            Register::UBRR1H => 0xCD,
            Register::UBRR1L => 0xCC,
            Register::UCSR1C => 0xCA,
            Register::UCSR1B => 0xC9,
            Register::UCSR1A => 0xC8,
            Register::UDR0 => 0xC6,
            Register::UBRR0H => 0xC5,
            Register::UBRR0L => 0xC4,
            Register::UCSR0C => 0xC2,
            Register::UCSR0B => 0xC1,
            Register::UCSR0A => 0xC0,
        }
    }
}

/// Whether `addr` is the control/status register A of some USART instance.
/// Those are the registers the driver polls for the data-register-empty and
/// receive-complete flags.
pub open spec fn is_status_addr(addr: u16) -> bool {
    addr == Register::UCSR0A.spec_addr() || addr == Register::UCSR1A.spec_addr()
        || addr == Register::UCSR2A.spec_addr() || addr == Register::UCSR3A.spec_addr()
}

/// Whether `addr` is the I/O data register of some USART instance.
pub open spec fn is_data_addr(addr: u16) -> bool {
    addr == Register::UDR0.spec_addr() || addr == Register::UDR1.spec_addr()
        || addr == Register::UDR2.spec_addr() || addr == Register::UDR3.spec_addr()
}

/// Runtime test for [`is_status_addr`].
pub fn check_status_addr(addr: u16) -> (b: bool)
    ensures
        b == is_status_addr(addr),
{
    addr == 0xC0 || addr == 0xC8 || addr == 0xD0 || addr == 0x130
}

/// Runtime test for [`is_data_addr`].
pub fn check_data_addr(addr: u16) -> (b: bool)
    ensures
        b == is_data_addr(addr),
{
    addr == 0xC6 || addr == 0xCE || addr == 0xD6 || addr == 0x136
}

} // verus!

//! One exclusive connection to a controller chip at one bus address.
//!
//! The link owns the open bus device and carries, as ghost state, the ordered
//! log of every bus transaction attempted through it. The trusted primitives
//! at the bottom each make exactly one SMBus call and record it in the log;
//! everything above them is verified against that log.

use vstd::prelude::*;

use crate::protocol::{
    BusOp, WireOp, spec_translated_register, translate_register, CONTROL_OFFSET,
    DATA_READ_OFFSET, DATA_WRITE_OFFSET, BLOCK_WRITE_OFFSET, IDENTIFIER_REGISTER,
    IDENTIFIER_BLOCK_OFFSET, spec_block_payload, spec_identifier_read_ops,
};
use crate::text::truncate_at_nul;
use i2cdev::linux::{LinuxI2CDevice, LinuxI2CError};

verus! {

/// i2cdev's Linux bus device, declared opaque: the library only moves values
/// of it through the trusted primitives below.
#[verifier::external_type_specification]
#[verifier::external_body]
pub struct ExLinuxI2CDevice(LinuxI2CDevice);

/// A single exclusive connection to one controller chip at one bus address.
pub struct RegisterLink {
    dev: LinuxI2CDevice,
    issued: Ghost<Seq<WireOp>>,
}

impl RegisterLink {
    /// The ordered log of every bus transaction attempted through this link.
    pub closed spec fn log(&self) -> Seq<WireOp> {
        self.issued@
    }

    /// Opens the device node and binds the chip's slave address. The log of a
    /// fresh link is empty.
    pub fn open(i2c_path: &str, slave_address: u16) -> (r: Result<RegisterLink, LinuxI2CError>)
        ensures
            r matches Ok(link) ==> link.log() == Seq::<WireOp>::empty(),
    {
        match open_device(i2c_path, slave_address) {
            Ok(dev) => Ok(RegisterLink { dev, issued: Ghost(Seq::empty()) }),
            Err(e) => Err(e),
        }
    }

    /// Selects a logical register for the next access: one word-write of the
    /// translated register number at the control offset. Selection is issued
    /// anew before every access, even a repeated one.
    pub fn select_register(&mut self, register: u16) -> (r: Result<(), LinuxI2CError>)
        ensures
            final(self).log() == old(self).log().push(
                WireOp::WriteWord {
                    offset: CONTROL_OFFSET,
                    value: spec_translated_register(register),
                },
            ),
    {
        let translated = translate_register(register);
        self.raw_write_word(CONTROL_OFFSET, translated)
    }

    /// Reads one byte of the selected register.
    pub fn read_byte(&mut self) -> (r: Result<u8, LinuxI2CError>)
        ensures
            final(self).log() == old(self).log().push(
                WireOp::ReadByte { offset: DATA_READ_OFFSET },
            ),
    {
        self.raw_read_byte(DATA_READ_OFFSET)
    }

    /// Reads one word of the selected register.
    pub fn read_word(&mut self) -> (r: Result<u16, LinuxI2CError>)
        ensures
            final(self).log() == old(self).log().push(
                WireOp::ReadWord { offset: DATA_READ_OFFSET },
            ),
    {
        self.raw_read_word(DATA_READ_OFFSET)
    }

    /// Writes one byte to the selected register.
    pub fn write_byte(&mut self, value: u8) -> (r: Result<(), LinuxI2CError>)
        ensures
            final(self).log() == old(self).log().push(
                WireOp::WriteByte { offset: DATA_WRITE_OFFSET, value },
            ),
    {
        self.raw_write_byte(DATA_WRITE_OFFSET, value)
    }

    /// Block-writes `data` to the selected register; on the wire the payload
    /// is cut to the SMBus block maximum.
    pub fn write_block(&mut self, data: &Vec<u8>) -> (r: Result<(), LinuxI2CError>)
        ensures
            final(self).log() == old(self).log().push(
                WireOp::WriteBlock {
                    offset: BLOCK_WRITE_OFFSET,
                    data: spec_block_payload(data@),
                },
            ),
    {
        self.raw_write_block(BLOCK_WRITE_OFFSET, data)
    }

    /// Issues one planned write transaction.
    pub fn issue_write(&mut self, op: &BusOp) -> (r: Result<(), LinuxI2CError>)
        ensures
            final(self).log() == old(self).log().push(op@),
    {
        match op {
            BusOp::WriteWord { offset, value } => self.raw_write_word(*offset, *value),
            BusOp::WriteByte { offset, value } => self.raw_write_byte(*offset, *value),
            BusOp::WriteBlock { offset, data } => self.raw_write_block(*offset, data),
        }
    }

    /// Reads the chip's identifier: the identifier register is selected like
    /// any other, a block-read fetches the identifier, and the result is cut
    /// at the first NUL, or taken whole if no NUL appears.
    pub fn read_identifier(&mut self) -> (r: Result<Vec<u8>, LinuxI2CError>)
        ensures
            r matches Ok(id) ==> {
                &&& final(self).log() == old(self).log() + spec_identifier_read_ops()
                &&& forall|i: int| 0 <= i < id@.len() ==> id@[i] != 0
            },
            r is Err ==> final(self).log() == old(self).log().push(
                spec_identifier_read_ops()[0],
            ) || final(self).log() == old(self).log() + spec_identifier_read_ops(),
    {
        match self.select_register(IDENTIFIER_REGISTER) {
            Ok(()) => (),
            Err(e) => {
                return Err(e);
            },
        }
        let block = match self.raw_read_block(IDENTIFIER_BLOCK_OFFSET) {
            Ok(block) => {
                proof {
                    assert(self.log() =~= old(self).log() + spec_identifier_read_ops());
                }
                block
            },
            Err(e) => {
                proof {
                    assert(self.log() =~= old(self).log() + spec_identifier_read_ops());
                }
                return Err(e);
            },
        };
        Ok(truncate_at_nul(&block))
    }

    /// Relies on i2cdev's `LinuxI2CDevice::smbus_write_word_data`: one SMBus
    /// word-write transaction of `value` at sub-address `offset`.
    #[verifier::external_body]
    fn raw_write_word(&mut self, offset: u8, value: u16) -> (r: Result<(), LinuxI2CError>)
        ensures
            final(self).log() == old(self).log().push(WireOp::WriteWord { offset, value }),
    {
        i2cdev::core::I2CDevice::smbus_write_word_data(&mut self.dev, offset, value)
    }

    /// Relies on i2cdev's `LinuxI2CDevice::smbus_write_byte_data`: one SMBus
    /// byte-write transaction of `value` at sub-address `offset`.
    #[verifier::external_body]
    fn raw_write_byte(&mut self, offset: u8, value: u8) -> (r: Result<(), LinuxI2CError>)
        ensures
            final(self).log() == old(self).log().push(WireOp::WriteByte { offset, value }),
    {
        i2cdev::core::I2CDevice::smbus_write_byte_data(&mut self.dev, offset, value)
    }

    /// Relies on i2cdev's `LinuxI2CDevice::smbus_write_block_data`: one SMBus
    /// block-write transaction at sub-address `offset`. The call silently
    /// cuts the payload to the SMBus block maximum of 32 bytes, so the log
    /// records the cut payload: exactly what goes on the wire.
    #[verifier::external_body]
    fn raw_write_block(&mut self, offset: u8, data: &Vec<u8>) -> (r: Result<(), LinuxI2CError>)
        ensures
            final(self).log() == old(self).log().push(
                WireOp::WriteBlock { offset, data: spec_block_payload(data@) },
            ),
    {
        i2cdev::core::I2CDevice::smbus_write_block_data(&mut self.dev, offset, data.as_slice())
    }

    /// Relies on i2cdev's `LinuxI2CDevice::smbus_read_byte_data`: one SMBus
    /// byte-read transaction at sub-address `offset`. Nothing is assumed of
    /// the returned byte: it comes from the hardware.
    #[verifier::external_body]
    fn raw_read_byte(&mut self, offset: u8) -> (r: Result<u8, LinuxI2CError>)
        ensures
            final(self).log() == old(self).log().push(WireOp::ReadByte { offset }),
    {
        i2cdev::core::I2CDevice::smbus_read_byte_data(&mut self.dev, offset)
    }

    /// Relies on i2cdev's `LinuxI2CDevice::smbus_read_word_data`: one SMBus
    /// word-read transaction at sub-address `offset`. Nothing is assumed of
    /// the returned word.
    #[verifier::external_body]
    fn raw_read_word(&mut self, offset: u8) -> (r: Result<u16, LinuxI2CError>)
        ensures
            final(self).log() == old(self).log().push(WireOp::ReadWord { offset }),
    {
        i2cdev::core::I2CDevice::smbus_read_word_data(&mut self.dev, offset)
    }

    /// Relies on i2cdev's `LinuxI2CDevice::smbus_read_block_data`: one SMBus
    /// block-read transaction at sub-address `offset`. Nothing is assumed of
    /// the returned bytes: they come from the hardware.
    #[verifier::external_body]
    fn raw_read_block(&mut self, offset: u8) -> (r: Result<Vec<u8>, LinuxI2CError>)
        ensures
            final(self).log() == old(self).log().push(WireOp::ReadBlock { offset }),
    {
        i2cdev::core::I2CDevice::smbus_read_block_data(&mut self.dev, offset)
    }
}

/// Relies on i2cdev's `LinuxI2CDevice::new`: opens the device node at
/// `i2c_path` and binds the slave address for subsequent SMBus transactions.
#[verifier::external_body]
fn open_device(i2c_path: &str, slave_address: u16) -> (r: Result<LinuxI2CDevice, LinuxI2CError>) {
    LinuxI2CDevice::new(i2c_path, slave_address)
}

} // verus!

//! Bus discovery support: the adapter record and the verified parsing of the
//! sysfs text the discovery walk reads. The walk over the device filesystem
//! itself is I/O and lives with the caller; everything it has to interpret —
//! a PCI class file, an adapter's name line, a directory entry name — is
//! parsed here, with exact contracts.

use vstd::prelude::*;

use crate::text::{
    parse_dec_u8, parse_hex_u32, spec_all_dec_digits, spec_all_hex_digits, spec_dec_value,
    spec_hex_value, spec_split, spec_starts_with, spec_trim, split_bytes, starts_with_bytes,
    trim_ascii,
};

verus! {

/// PCI class code of an SMBus controller.
pub const SMBUS_PCI_CLASS: u32 = 0x000C0500;

/// One I2C adapter found on the management bus: the device node path, the
/// adapter's port number and its base address.
pub struct I2CAdapter {
    pub path: String,
    pub port: u8,
    pub base_address: u32,
}

/// The hexadecimal digits of a sysfs PCI `class` file: everything after the
/// leading `0x`, trimmed of surrounding whitespace.
pub open spec fn spec_class_digits(content: Seq<u8>) -> Seq<u8> {
    spec_trim(content.skip(2))
}

/// Parses the content of a sysfs PCI `class` file — `0x` followed by
/// hexadecimal digits and a trailing newline — into the class code. Files
/// too short for the `0x` prefix, non-hexadecimal content and values beyond
/// `u32` give `None`.
pub fn parse_pci_class(content: &Vec<u8>) -> (r: Option<u32>)
    ensures
        content@.len() < 2 ==> r is None,
        content@.len() >= 2 ==> {
            let digits = spec_class_digits(content@);
            &&& r is Some <==> digits.len() > 0 && spec_all_hex_digits(digits) && spec_hex_value(
                digits,
            ) <= u32::MAX
            &&& r matches Some(v) ==> v == spec_hex_value(digits)
        },
{
    if content.len() < 2 {
        return None;
    }
    let mut tail: Vec<u8> = Vec::new();
    let mut i: usize = 2;
    while i < content.len()
        invariant
            2 <= i <= content@.len(),
            tail@ =~= content@.subrange(2, i as int),
        decreases content@.len() - i,
    {
        tail.push(content[i]);
        assert(tail@ =~= content@.subrange(2, i + 1));
        i = i + 1;
    }
    proof {
        assert(tail@ =~= content@.skip(2));
    }
    let digits = trim_ascii(&tail);
    parse_hex_u32(&digits)
}

/// What an adapter's sysfs `name` line parses to: the third-from-last
/// space-separated field is the decimal port number, the last field the
/// hexadecimal base address.
pub open spec fn spec_adapter_name_fields(name: Seq<u8>) -> Seq<Seq<u8>> {
    spec_split(spec_trim(name), 0x20)
}

/// Parses an adapter's sysfs `name` line. `None` when there are fewer than
/// three fields, when the port field is not a decimal numeral fitting `u8`,
/// or when the address field is not a hexadecimal numeral fitting `u32`.
pub fn parse_adapter_name(name: &Vec<u8>) -> (r: Option<(u8, u32)>)
    ensures
        ({
            let fields = spec_adapter_name_fields(name@);
            &&& r is Some <==> {
                &&& fields.len() >= 3
                &&& fields[fields.len() - 3].len() > 0
                &&& spec_all_dec_digits(fields[fields.len() - 3])
                &&& spec_dec_value(fields[fields.len() - 3]) <= u8::MAX
                &&& fields.last().len() > 0
                &&& spec_all_hex_digits(fields.last())
                &&& spec_hex_value(fields.last()) <= u32::MAX
            }
            &&& r matches Some(pb) ==> pb.0 == spec_dec_value(fields[fields.len() - 3])
                && pb.1 == spec_hex_value(fields.last())
        }),
{
    let trimmed = trim_ascii(name);
    let fields = split_bytes(&trimmed, 0x20);
    if fields.len() < 3 {
        return None;
    }
    let port = match parse_dec_u8(&fields[fields.len() - 3]) {
        Some(port) => port,
        None => {
            return None;
        },
    };
    let base_address = match parse_hex_u32(&fields[fields.len() - 1]) {
        Some(base_address) => base_address,
        None => {
            return None;
        },
    };
    Some((port, base_address))
}

/// The directory entries of interest to adapter discovery: names beginning
/// with the ASCII bytes of `i2c-`.
pub open spec fn spec_is_i2c_entry(name: Seq<u8>) -> bool {
    spec_starts_with(name, seq![0x69u8, 0x32u8, 0x63u8, 0x2Du8])
}

/// Whether a directory entry name begins with `i2c-`.
pub fn is_i2c_entry_name(name: &Vec<u8>) -> (r: bool)
    ensures
        r == spec_is_i2c_entry(name@),
{
    let prefix: Vec<u8> = vec![0x69u8, 0x32u8, 0x63u8, 0x2Du8];
    assert(prefix@ =~= seq![0x69u8, 0x32u8, 0x63u8, 0x2Du8]);
    starts_with_bytes(name, &prefix)
}

} // verus!

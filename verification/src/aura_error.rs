//! Error type shared by the whole library: transport-level bus failures,
//! I/O failures met while resolving a bus, and protocol or configuration
//! errors raised by the library itself.

use vstd::prelude::*;

use i2cdev::linux::LinuxI2CError;

verus! {

/// Error type of i2cdev's Linux backend, declared so that bus failures can be
/// carried through the library unchanged.
#[verifier::external_type_specification]
#[verifier::external_body]
pub struct ExLinuxI2CError(LinuxI2CError);

/// `std::io::Error`, declared so that discovery failures can be carried.
#[verifier::external_type_specification]
#[verifier::external_body]
pub struct ExIoError(std::io::Error);

/// Any failure the library surfaces to its callers.
#[derive(Debug)]
pub enum AuraError {
    /// A bus transaction or device open failed in the transport layer.
    I2CError(LinuxI2CError),
    /// An I/O failure outside the bus transport itself.
    IOError(std::io::Error),
    /// A failure of the library's own rules, described in the message.
    Other(String),
}

impl AuraError {
    /// Wraps a description of a library-level failure.
    pub fn other(s: &str) -> (e: AuraError)
        ensures
            e matches AuraError::Other(t) && t@ == s@,
    {
        AuraError::Other(s.to_owned())
    }

    /// A human-readable description of the failure, as the process boundary
    /// prints it. Descriptions of transport-level errors come from the
    /// transport itself and are not pinned down here.
    pub fn message(&self) -> (m: String)
        ensures
            self matches AuraError::Other(s) ==> m@ == "aura error: "@ + s@,
    {
        match self {
            AuraError::I2CError(e) => i2c_error_text(e),
            AuraError::IOError(e) => io_error_text(e),
            AuraError::Other(s) => {
                let mut m = String::from_str("aura error: ");
                m.append(s.as_str());
                m
            },
        }
    }
}

/// Relies on the `Display` impl of i2cdev's `LinuxI2CError` for the wording;
/// nothing is assumed of the text.
#[verifier::external_body]
fn i2c_error_text(e: &LinuxI2CError) -> String {
    format!("{}", e)
}

/// Relies on the `Display` impl of `std::io::Error` for the wording; nothing
/// is assumed of the text.
#[verifier::external_body]
fn io_error_text(e: &std::io::Error) -> String {
    format!("{}", e)
}

impl From<LinuxI2CError> for AuraError {
    fn from(err: LinuxI2CError) -> (e: AuraError) {
        AuraError::I2CError(err)
    }
}

impl vstd::std_specs::convert::FromSpecImpl<LinuxI2CError> for AuraError {
    open spec fn obeys_from_spec() -> bool {
        true
    }

    open spec fn from_spec(err: LinuxI2CError) -> AuraError {
        AuraError::I2CError(err)
    }
}

impl From<std::io::Error> for AuraError {
    fn from(err: std::io::Error) -> (e: AuraError) {
        AuraError::IOError(err)
    }
}

impl vstd::std_specs::convert::FromSpecImpl<std::io::Error> for AuraError {
    open spec fn obeys_from_spec() -> bool {
        true
    }

    open spec fn from_spec(err: std::io::Error) -> AuraError {
        AuraError::IOError(err)
    }
}

pub type AuraResult<T> = Result<T, AuraError>;

} // verus!

//! The bus, reset line and delay that the driver talks through.
use display_interface::{DataFormat, WriteOnlyDataCommand};
use embedded_hal::blocking::delay::DelayMs;
use embedded_hal::digital::v2::OutputPin;
use vstd::prelude::*;

verus! {

/// Errors that can come up while talking to the display.
#[derive(Clone, Copy, Debug, PartialEq, Eq, Structural)]
pub enum DriverError {
    /// Invalid data format selected for the interface
    InvalidFormatError,
    /// Unable to write to the bus
    BusWriteError,
    /// Unable to assert or de-assert the data/command switching signal
    DCError,
    /// Unable to assert the chip select signal
    CSError,
    /// The requested data format is not implemented by the interface
    DataFormatNotImplemented,
    /// Unable to assert or de-assert the reset signal
    RSError,
    /// Attempted to write to a pixel outside the display's bounds
    OutOfBoundsError,
    /// Any other failure reported by the interface
    Other,
}

#[verifier::external_type_specification]
#[verifier::external_body]
pub struct ExInterfaceError(display_interface::DisplayError);

/// Relies on the variants of `display_interface::DisplayError`: each is
/// reported as the variant of the same name here.
#[verifier::external_body]
pub(crate) fn interface_error(e: display_interface::DisplayError) -> DriverError {
    match e {
        display_interface::DisplayError::InvalidFormatError => DriverError::InvalidFormatError,
        display_interface::DisplayError::BusWriteError => DriverError::BusWriteError,
        display_interface::DisplayError::DCError => DriverError::DCError,
        display_interface::DisplayError::CSError => DriverError::CSError,
        display_interface::DisplayError::DataFormatNotImplemented => {
            DriverError::DataFormatNotImplemented
        },
        display_interface::DisplayError::RSError => DriverError::RSError,
        display_interface::DisplayError::OutOfBoundsError => DriverError::OutOfBoundsError,
        _ => DriverError::Other,
    }
}

/// Relies on `WriteOnlyDataCommand::send_commands`: hands the bytes to the
/// interface in command mode, as one batch of `u8`. Whether it succeeds is up
/// to the interface.
#[verifier::external_body]
pub(crate) fn write_command_bytes<DI: WriteOnlyDataCommand>(
    display: &mut DI,
    bytes: &Vec<u8>,
) -> Result<(), display_interface::DisplayError> {
    display.send_commands(DataFormat::U8(bytes.as_slice()))
}

/// Relies on `WriteOnlyDataCommand::send_data`: hands the bytes to the
/// interface in data mode, as one batch of `u8`. Whether it succeeds is up to
/// the interface.
#[verifier::external_body]
pub(crate) fn write_data_bytes<DI: WriteOnlyDataCommand>(
    display: &mut DI,
    bytes: &Vec<u8>,
) -> Result<(), display_interface::DisplayError> {
    display.send_data(DataFormat::U8(bytes.as_slice()))
}

/// Relies on `OutputPin::set_high`: `true` where the pin reported success.
#[verifier::external_body]
pub(crate) fn pin_set_high<RST: OutputPin>(rst: &mut RST) -> bool {
    rst.set_high().is_ok()
}

/// Relies on `OutputPin::set_low`: `true` where the pin reported success.
#[verifier::external_body]
pub(crate) fn pin_set_low<RST: OutputPin>(rst: &mut RST) -> bool {
    rst.set_low().is_ok()
}

/// Relies on `DelayMs::delay_ms`: blocks for `ms` milliseconds and cannot
/// fail.
#[verifier::external_body]
pub(crate) fn pause_ms<DELAY: DelayMs<u8>>(delay: &mut DELAY, ms: u8) {
    delay.delay_ms(ms)
}

} // verus!

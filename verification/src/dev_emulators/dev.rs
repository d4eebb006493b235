use vstd::prelude::*;

verus! {

/// A device on a port: it takes bytes written to it and hands out bytes to
/// read. After an error or an endless wait it stays in that state.
pub trait Dev {
    /// Read the next byte (a default byte when nothing can be read).
    fn read_byte(&mut self) -> u8;

    /// Take a byte.
    fn write_byte(&mut self, byte: u8);

    /// Whether a byte can be read now.
    fn test_can_read_byte(&self) -> bool;

    /// Whether the device is in its error state.
    fn have_error(&self) -> bool;

    /// Whether the device waits endlessly (a read after an error).
    ///
    /// The usual use:
    /// read a byte; if `have_error`, handle the error; if `in_infinity_state`,
    /// handle the endless wait; else handle the byte.
    fn in_infinity_state(&self) -> bool;
}

}

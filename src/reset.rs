//! The signal sequence that restarts a device after flashing.

use vstd::prelude::*;

verus! {

/// USB product identifier of the built-in USB-Serial-JTAG peripheral.
pub const USB_SERIAL_JTAG_PID: u16 = 0x1001;

/// Pause, in milliseconds, between signal changes.
pub const RESET_DELAY_MS: u64 = 100;

/// One step of a reset sequence on the serial transport.
#[derive(Clone, Copy, Debug, PartialEq, Eq, Structural)]
pub enum ResetStep {
    /// Wait this many milliseconds.
    Sleep(u64),
    /// Drive the DTR line (true: asserted).
    Dtr(bool),
    /// Drive the RTS line (true: asserted, which holds the chip in reset).
    Rts(bool),
}

/// The reset sequence for a device with the given USB product identifier:
/// the USB-Serial-JTAG peripheral needs DTR released around the RTS pulse,
/// a USB-UART bridge only the pulse.
pub open spec fn reset_steps(pid: u16) -> Seq<ResetStep> {
    if pid == USB_SERIAL_JTAG_PID {
        seq![
            ResetStep::Sleep(RESET_DELAY_MS),
            ResetStep::Dtr(false),
            ResetStep::Sleep(RESET_DELAY_MS),
            ResetStep::Rts(true),
            ResetStep::Dtr(false),
            ResetStep::Rts(true),
            ResetStep::Sleep(RESET_DELAY_MS),
            ResetStep::Rts(false),
        ]
    } else {
        seq![
            ResetStep::Sleep(RESET_DELAY_MS),
            ResetStep::Rts(true),
            ResetStep::Sleep(RESET_DELAY_MS),
            ResetStep::Rts(false),
        ]
    }
}

/// The steps that restart the device into its application.
pub fn reset_after_flash(pid: u16) -> (r: Vec<ResetStep>)
    ensures
        r@ == reset_steps(pid),
{
    let mut steps: Vec<ResetStep> = Vec::new();
    steps.push(ResetStep::Sleep(RESET_DELAY_MS));
    if pid == USB_SERIAL_JTAG_PID {
        steps.push(ResetStep::Dtr(false));
        steps.push(ResetStep::Sleep(RESET_DELAY_MS));
        steps.push(ResetStep::Rts(true));
        steps.push(ResetStep::Dtr(false));
        steps.push(ResetStep::Rts(true));
    } else {
        steps.push(ResetStep::Rts(true));
    }
    steps.push(ResetStep::Sleep(RESET_DELAY_MS));
    steps.push(ResetStep::Rts(false));
    assert(steps@ =~= reset_steps(pid));
    steps
}

} // verus!

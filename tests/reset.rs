use espmonitor::reset::{reset_after_flash, ResetStep, USB_SERIAL_JTAG_PID};

#[test]
fn uart_bridge_reset_pulses_rts() {
    assert_eq!(
        reset_after_flash(0xea60),
        vec![
            ResetStep::Sleep(100),
            ResetStep::Rts(true),
            ResetStep::Sleep(100),
            ResetStep::Rts(false),
        ]
    );
}

#[test]
fn usb_serial_jtag_reset_releases_dtr() {
    assert_eq!(USB_SERIAL_JTAG_PID, 0x1001);
    assert_eq!(
        reset_after_flash(0x1001),
        vec![
            ResetStep::Sleep(100),
            ResetStep::Dtr(false),
            ResetStep::Sleep(100),
            ResetStep::Rts(true),
            ResetStep::Dtr(false),
            ResetStep::Rts(true),
            ResetStep::Sleep(100),
            ResetStep::Rts(false),
        ]
    );
}

use espmonitor::cli::{
    default_monitor_baud, monitor_baud, parse_chip_rev, parse_u32, parse_uint32, require_stub,
    warns_before_connect, Chip, CliError, ConnectArgs, MonitorArgs, ResetAfterOperation,
    ResetBeforeOperation,
};
use espmonitor::decoder::LogFormat;

fn connect_args(no_stub: bool, baud: Option<u32>) -> ConnectArgs {
    ConnectArgs {
        after: ResetAfterOperation::HardReset,
        baud,
        before: ResetBeforeOperation::DefaultReset,
        chip: Some(Chip::Esp32c3),
        confirm_port: false,
        list_all_ports: false,
        no_stub,
        port: None,
    }
}

#[test]
fn chip_revision_parses() {
    assert_eq!(parse_chip_rev("0.0"), Ok(0));
    assert_eq!(parse_chip_rev("1.3"), Ok(103));
    assert_eq!(parse_chip_rev("+3.01"), Ok(301));
    assert_eq!(parse_chip_rev("655.35"), Ok(65535));
}

#[test]
fn chip_revision_errors() {
    for bad in ["", "1", "1.", ".1", "1.2.3", "a.b", "-1.0", "1.70000", "655.36", "1 .2"] {
        assert_eq!(
            parse_chip_rev(bad),
            Err(CliError::ParseChipRev { chip_rev: bad.to_string() }),
            "{bad}"
        );
    }
}

#[test]
fn prefixed_numbers() {
    assert_eq!(parse_u32("42").unwrap(), 42);
    assert_eq!(parse_u32("0x1000").unwrap(), 0x1000);
    assert_eq!(parse_uint32("0b101").unwrap(), 5);
    assert_eq!(parse_uint32("0o17").unwrap(), 15);
    assert_eq!(parse_uint32("1_000").unwrap(), 1000);
    assert!(parse_u32("4294967296").is_err());
    assert!(parse_u32("zz").is_err());
    assert_eq!(parse_u32("0xDEAD_beef").unwrap(), 0xdead_beef);
    assert_eq!(parse_u32("0x_10").unwrap(), 16);
    assert!(parse_u32("0x").is_err());
    assert!(parse_u32("0x__").is_err());
    assert!(parse_u32("_1").is_err());
    assert!(parse_u32("0b102").is_err());
    assert!(parse_u32("0x100000000").is_err());
}

#[test]
fn stub_requirement() {
    assert_eq!(require_stub(&connect_args(true, None)), Err(CliError::StubRequired));
    assert_eq!(require_stub(&connect_args(false, None)), Ok(()));
}

#[test]
fn pre_connection_warning() {
    assert!(warns_before_connect(ResetBeforeOperation::NoReset));
    assert!(warns_before_connect(ResetBeforeOperation::NoResetNoSync));
    assert!(!warns_before_connect(ResetBeforeOperation::DefaultReset));
    assert!(!warns_before_connect(ResetBeforeOperation::UsbReset));
}

#[test]
fn monitor_baud_rates() {
    assert_eq!(default_monitor_baud(Chip::Esp32c2, true), 74_880);
    assert_eq!(default_monitor_baud(Chip::Esp32c2, false), 115_200);
    assert_eq!(default_monitor_baud(Chip::Esp32, true), 115_200);
    let args = MonitorArgs {
        connect_args: connect_args(false, Some(921_600)),
        elf: None,
        non_interactive: false,
        log_format: LogFormat::Serial,
        log_output: None,
    };
    assert_eq!(monitor_baud(&args, 115_200), 921_600);
    let args = MonitorArgs { connect_args: connect_args(false, None), ..args };
    assert_eq!(monitor_baud(&args, 74_880), 74_880);
}

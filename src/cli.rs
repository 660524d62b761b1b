//! Command-line arguments and the small decisions made on them.

use vstd::prelude::*;

use crate::decoder::LogFormat;

verus! {

/// Reset to perform before connecting.
#[derive(Clone, Copy, Debug, PartialEq, Eq, Structural)]
pub enum ResetBeforeOperation {
    DefaultReset,
    NoReset,
    NoResetNoSync,
    UsbReset,
}

/// Reset to perform after the operation.
#[derive(Clone, Copy, Debug, PartialEq, Eq, Structural)]
pub enum ResetAfterOperation {
    HardReset,
    NoReset,
    NoResetNoStub,
    WatchdogReset,
}

/// Supported target chips.
#[derive(Clone, Copy, Debug, PartialEq, Eq, Structural)]
pub enum Chip {
    Esp32,
    Esp32c2,
    Esp32c3,
    Esp32c6,
    Esp32h2,
    Esp32p4,
    Esp32s2,
    Esp32s3,
}

/// Failures of the command-line layer's own checks.
#[derive(Debug, PartialEq, Eq)]
pub enum CliError {
    /// The operation needs the RAM stub, which was switched off.
    StubRequired,
    /// A chip revision that is not `major.minor` with two 16-bit numbers.
    ParseChipRev { chip_rev: String },
}

/// Establish a connection with a target device.
pub struct ConnectArgs {
    /// Reset operation to perform after connecting to the target
    pub after: ResetAfterOperation,
    /// Baud rate at which to communicate with target device
    pub baud: Option<u32>,
    /// Reset operation to perform before connecting to the target
    pub before: ResetBeforeOperation,
    /// Target device
    pub chip: Option<Chip>,
    /// Require confirmation before auto-connecting to a recognized device.
    pub confirm_port: bool,
    /// List all available ports.
    pub list_all_ports: bool,
    /// Do not use the RAM stub for loading
    pub no_stub: bool,
    /// Serial port connected to target device
    pub port: Option<String>,
}

/// Erase entire flash of target device.
pub struct EraseFlashArgs {
    pub connect_args: ConnectArgs,
}

/// Erase specified region of flash.
pub struct EraseRegionArgs {
    pub connect_args: ConnectArgs,
    /// Offset to start erasing from
    pub addr: u32,
    /// Size of the region to erase
    pub size: u32,
}

/// Operations for partition tables.
pub struct PartitionTableArgs {
    /// Output file name; standard output when unset
    pub output: Option<String>,
    /// Input partition table
    pub partition_table: String,
    /// Convert CSV partition table to binary representation
    pub to_binary: bool,
    /// Convert binary partition table to CSV representation
    pub to_csv: bool,
}

/// Reads the content of flash memory and saves it to a file.
pub struct ReadFlashArgs {
    /// Offset to start reading from
    pub addr: u32,
    /// Size of each individual packet of data
    pub block_size: u32,
    pub connect_args: ConnectArgs,
    /// Size of the region to read
    pub size: u32,
    /// Name of binary dump
    pub file: String,
    /// Maximum number of un-acked packets
    pub max_in_flight: u32,
}

/// Open the serial monitor without flashing.
pub struct MonitorArgs {
    pub connect_args: ConnectArgs,
    /// Optional file name of the ELF image to load the symbols from
    pub elf: Option<String>,
    /// Avoids asking the user for interactions like resetting the device
    pub non_interactive: bool,
    /// Logging format
    pub log_format: LogFormat,
    /// File to append the session transcript to
    pub log_output: Option<String>,
}

/// Calculate the checksum of a region of flash.
pub struct ChecksumMd5Args {
    /// Start address
    pub address: u32,
    /// Length
    pub length: u32,
    pub connect_args: ConnectArgs,
}

/// Baud rate of the monitor when none is given.
pub const DEFAULT_MONITOR_BAUD: u32 = 115_200;

/// Baud rate of the monitor for an ESP32-C2 on a 26 MHz crystal
/// (115 200 scaled by 26/40).
pub const C2_26MHZ_MONITOR_BAUD: u32 = 74_880;

/// Whether connecting with this pre-connection reset deserves a warning that
/// the chip must already be in bootloader or stub mode.
pub fn warns_before_connect(before: ResetBeforeOperation) -> (r: bool)
    ensures
        r <==> (before == ResetBeforeOperation::NoReset || before
            == ResetBeforeOperation::NoResetNoSync),
{
    before == ResetBeforeOperation::NoReset || before == ResetBeforeOperation::NoResetNoSync
}

/// Operations that write or read flash through the stub refuse to run
/// without it.
pub fn require_stub(args: &ConnectArgs) -> (r: Result<(), CliError>)
    ensures
        args.no_stub ==> r == Err::<(), CliError>(CliError::StubRequired),
        !args.no_stub ==> r == Ok::<(), CliError>(()),
{
    if args.no_stub {
        Err(CliError::StubRequired)
    } else {
        Ok(())
    }
}

/// The monitor's baud rate when none is given for a chip.
pub fn default_monitor_baud(chip: Chip, crystal_26mhz: bool) -> (r: u32)
    ensures
        r == if chip == Chip::Esp32c2 && crystal_26mhz {
            C2_26MHZ_MONITOR_BAUD
        } else {
            DEFAULT_MONITOR_BAUD
        },
{
    if chip == Chip::Esp32c2 && crystal_26mhz {
        C2_26MHZ_MONITOR_BAUD
    } else {
        DEFAULT_MONITOR_BAUD
    }
}

/// The monitor's baud rate: the one given, else the chip's default.
pub fn monitor_baud(args: &MonitorArgs, default_baud: u32) -> (r: u32)
    ensures
        r == match args.connect_args.baud {
            Some(b) => b,
            None => default_baud,
        },
{
    match args.connect_args.baud {
        Some(b) => b,
        None => default_baud,
    }
}

} // verus!

verus! {

pub open spec fn is_decimal_digit(c: char) -> bool {
    '0' <= c && c <= '9'
}

pub open spec fn all_decimal_digits(t: Seq<char>) -> bool {
    forall|k: int| 0 <= k < t.len() ==> is_decimal_digit(#[trigger] t[k])
}

/// The number that a string of decimal digits writes.
pub open spec fn decimal_value(t: Seq<char>) -> nat
    decreases t.len(),
{
    if t.len() == 0 {
        0
    } else {
        decimal_value(t.drop_last()) * 10 + ((t.last() as u32) - ('0' as u32)) as nat
    }
}

/// A 16-bit unsigned number in decimal, as the standard library reads it: an
/// optional `+`, then at least one digit, and a value that fits.
pub open spec fn parse_u16_spec(t: Seq<char>) -> Option<u16> {
    let d = if t.len() > 0 && t[0] == '+' {
        t.drop_first()
    } else {
        t
    };
    if d.len() > 0 && all_decimal_digits(d) && decimal_value(d) <= u16::MAX {
        Some(decimal_value(d) as u16)
    } else {
        None
    }
}

/// `s` holds exactly one `.`, at index `k`.
pub open spec fn single_dot_at(s: Seq<char>, k: int) -> bool {
    &&& 0 <= k < s.len()
    &&& s[k] == '.'
    &&& forall|j: int| 0 <= j < s.len() && j != k ==> s[j] != '.'
}

/// A chip revision `major.minor` as `major * 100 + minor`, where both parts
/// are 16-bit numbers and the result fits in 16 bits.
pub open spec fn chip_rev_value(s: Seq<char>) -> Option<u16> {
    if exists|k: int| single_dot_at(s, k) {
        let k = choose|k: int| single_dot_at(s, k);
        match (parse_u16_spec(s.subrange(0, k)), parse_u16_spec(s.subrange(k + 1, s.len() as int))) {
            (Some(major), Some(minor)) => if major * 100 + minor <= u16::MAX {
                Some((major * 100 + minor) as u16)
            } else {
                None
            },
            _ => None,
        }
    } else {
        None
    }
}

proof fn lemma_decimal_value_grows(t: Seq<char>, j: int)
    requires
        0 <= j <= t.len(),
        all_decimal_digits(t),
    ensures
        decimal_value(t.subrange(0, j)) <= decimal_value(t),
    decreases t.len() - j,
{
    if j < t.len() {
        let u = t.subrange(0, j + 1);
        assert(u.drop_last() =~= t.subrange(0, j));
        assert(is_decimal_digit(u.last()));
        lemma_decimal_value_grows(t, j + 1);
    } else {
        assert(t.subrange(0, j) =~= t);
    }
}

/// Reads the characters `from..to` of `s` as a 16-bit number.
fn parse_u16_range(s: &str, from: usize, to: usize) -> (r: Option<u16>)
    requires
        from <= to <= s@.len(),
    ensures
        r == parse_u16_spec(s@.subrange(from as int, to as int)),
{
    let ghost t = s@.subrange(from as int, to as int);
    let mut start: usize = from;
    if from < to && s.get_char(from) == '+' {
        start = from + 1;
    }
    let ghost d = s@.subrange(start as int, to as int);
    assert(d =~= if t.len() > 0 && t[0] == '+' { t.drop_first() } else { t });
    if start == to {
        return None;
    }
    let mut acc: u32 = 0;
    let mut i: usize = start;
    while i < to
        invariant
            start <= i <= to <= s@.len(),
            d == s@.subrange(start as int, to as int),
            t == s@.subrange(from as int, to as int),
            d == (if t.len() > 0 && t[0] == '+' { t.drop_first() } else { t }),
            acc as nat == decimal_value(s@.subrange(start as int, i as int)),
            acc <= u16::MAX,
            all_decimal_digits(s@.subrange(start as int, i as int)),
        decreases to - i,
    {
        let c = s.get_char(i);
        let ghost p = s@.subrange(start as int, i as int + 1);
        assert(p.drop_last() =~= s@.subrange(start as int, i as int));
        assert(p.last() == c);
        if !('0' <= c && c <= '9') {
            assert(d[i - start] == c);
            assert(!all_decimal_digits(d));
            assert(parse_u16_spec(t).is_none());
            return None;
        }
        let next: u32 = acc * 10 + (c as u32 - '0' as u32);
        if next > 65535 {
            proof {
                assert(decimal_value(p) == next);
                if all_decimal_digits(d) {
                    assert(d.subrange(0, i - start + 1) =~= p);
                    lemma_decimal_value_grows(d, i - start + 1);
                }
                assert(parse_u16_spec(t).is_none());
            }
            return None;
        }
        acc = next;
        i = i + 1;
    }
    assert(s@.subrange(start as int, i as int) =~= d);
    Some(acc as u16)
}

/// Parses a chip revision written `major.minor` into `major * 100 + minor`.
pub fn parse_chip_rev(chip_rev: &str) -> (r: Result<u16, CliError>)
    ensures
        r.is_ok() <==> chip_rev_value(chip_rev@).is_some(),
        r.is_ok() ==> r.unwrap() == chip_rev_value(chip_rev@).unwrap(),
        r.is_err() ==> r == Err::<u16, CliError>(
            CliError::ParseChipRev { chip_rev: r->Err_0->chip_rev },
        ) && r->Err_0->chip_rev@ == chip_rev@,
{
    let n = chip_rev.unicode_len();
    let mut dot: usize = n;
    let mut dots: usize = 0;
    let mut i: usize = 0;
    while i < n
        invariant
            n == chip_rev@.len(),
            i <= n,
            dots <= i,
            dots == 0 ==> dot == n && forall|j: int| 0 <= j < i ==> chip_rev@[j] != '.',
            dots == 1 ==> single_dot_at(chip_rev@.subrange(0, i as int), dot as int),
            dots >= 2 ==> !exists|k: int| single_dot_at(chip_rev@, k),
        decreases n - i,
    {
        if chip_rev.get_char(i) == '.' {
            if dots == 0 {
                dot = i;
            }
            proof {
                if dots == 1 {
                    assert forall|k: int| !single_dot_at(chip_rev@, k) by {
                        if single_dot_at(chip_rev@, k) {
                            assert(chip_rev@[dot as int] == '.');
                            assert(chip_rev@[i as int] == '.');
                        }
                    }
                }
            }
            if dots < 2 {
                dots = dots + 1;
            }
        }
        i = i + 1;
    }
    let err = CliError::ParseChipRev { chip_rev: String::from_str(chip_rev) };
    if dots != 1 {
        proof {
            if dots == 0 {
                assert forall|k: int| !single_dot_at(chip_rev@, k) by {
                    if single_dot_at(chip_rev@, k) {
                        assert(chip_rev@[k] == '.');
                    }
                }
            }
        }
        return Err(err);
    }
    assert(chip_rev@.subrange(0, n as int) =~= chip_rev@);
    assert(single_dot_at(chip_rev@, dot as int));
    assert forall|k: int| single_dot_at(chip_rev@, k) implies k == dot by {}
    let major = parse_u16_range(chip_rev, 0, dot);
    let minor = parse_u16_range(chip_rev, dot + 1, n);
    match (major, minor) {
        (Some(a), Some(b)) => {
            let v: u32 = a as u32 * 100 + b as u32;
            if v <= 65535 {
                Ok(v as u16)
            } else {
                Err(err)
            }
        },
        _ => Err(err),
    }
}

} // verus!

verus! {

#[verifier::external_type_specification]
#[verifier::external_body]
pub struct ExParseIntError(std::num::ParseIntError);

/// The number that `parse_int::parse::<u32>` reads from a string: decimal, or
/// hexadecimal, binary or octal after `0x`, `0b`, `0o`, with `_` allowed
/// between digits and surrounding white space ignored.
pub uninterp spec fn prefixed_u32_value(s: Seq<char>) -> Option<u32>;

/// The value of a hexadecimal digit, either case, if `c` is one.
pub open spec fn hex_digit(c: char) -> Option<nat> {
    if '0' <= c && c <= '9' {
        Some(((c as u32) - ('0' as u32)) as nat)
    } else if 'a' <= c && c <= 'f' {
        Some(((c as u32) - ('a' as u32) + 10) as nat)
    } else if 'A' <= c && c <= 'F' {
        Some(((c as u32) - ('A' as u32) + 10) as nat)
    } else {
        None
    }
}

/// `c` is a digit of the radix.
pub open spec fn is_radix_digit(c: char, radix: nat) -> bool {
    hex_digit(c) is Some && hex_digit(c).unwrap() < radix
}

/// The number that digits of a radix write.
pub open spec fn radix_value(d: Seq<char>, radix: nat) -> nat
    decreases d.len(),
{
    if d.len() == 0 {
        0
    } else {
        radix_value(d.drop_last(), radix) * radix + hex_digit(d.last()).unwrap()
    }
}

/// The radix that a leading `0x`, `0b` or `0o` selects; 10 without one.
pub open spec fn radix_of(s: Seq<char>) -> nat {
    if s.len() >= 2 && s[0] == '0' && s[1] == 'x' {
        16
    } else if s.len() >= 2 && s[0] == '0' && s[1] == 'b' {
        2
    } else if s.len() >= 2 && s[0] == '0' && s[1] == 'o' {
        8
    } else {
        10
    }
}

/// What follows the radix prefix, if there is one.
pub open spec fn digits_part(s: Seq<char>) -> Seq<char> {
    if radix_of(s) == 10 {
        s
    } else {
        s.subrange(2, s.len() as int)
    }
}

/// A number written as an optional radix prefix, then only digits of that
/// radix and `_` separators, not starting with `_`.
pub open spec fn plain_number(s: Seq<char>) -> bool {
    &&& (s.len() == 0 || s[0] != '_')
    &&& forall|k: int|
        0 <= k < digits_part(s).len() ==> digits_part(s)[k] == '_' || is_radix_digit(
            #[trigger] digits_part(s)[k],
            radix_of(s),
        )
}

/// The value of a plain number: its digits without separators, read in its
/// radix; `None` where there is no digit or the value exceeds `u32::MAX`.
pub open spec fn plain_number_value(s: Seq<char>) -> Option<u32> {
    let d = digits_part(s).filter(|c: char| c != '_');
    if d.len() > 0 && radix_value(d, radix_of(s)) <= u32::MAX {
        Some(radix_value(d, radix_of(s)) as u32)
    } else {
        None
    }
}

/// Relies on parse_int::parse::<u32>: it trims white space, refuses a leading
/// `_`, picks the radix by a `0x`, `0b` or `0o` prefix (10 without one), drops
/// every `_` and hands the rest to u32::from_str_radix, which fails on no
/// digits or a value above u32::MAX and reads digits of either case.
#[verifier::external_body]
fn parse_prefixed_u32(input: &str) -> (r: Result<u32, std::num::ParseIntError>)
    ensures
        r.is_ok() <==> prefixed_u32_value(input@).is_some(),
        r.is_ok() ==> r.unwrap() == prefixed_u32_value(input@).unwrap(),
        plain_number(input@) ==> (r.is_ok() <==> plain_number_value(input@).is_some()),
        plain_number(input@) && r.is_ok() ==> r.unwrap() == plain_number_value(input@).unwrap(),
{
    parse_int::parse::<u32>(input)
}

/// Parses a 32-bit unsigned number, decimal or with a `0x`, `0b` or `0o`
/// prefix.
pub fn parse_u32(input: &str) -> (r: Result<u32, std::num::ParseIntError>)
    ensures
        r.is_ok() <==> prefixed_u32_value(input@).is_some(),
        r.is_ok() ==> r.unwrap() == prefixed_u32_value(input@).unwrap(),
        plain_number(input@) ==> (r.is_ok() <==> plain_number_value(input@).is_some()),
        plain_number(input@) && r.is_ok() ==> r.unwrap() == plain_number_value(input@).unwrap(),
{
    parse_prefixed_u32(input)
}

/// Parses a string as a 32-bit unsigned integer (an offset or a size).
pub fn parse_uint32(input: &str) -> (r: Result<u32, std::num::ParseIntError>)
    ensures
        r.is_ok() <==> prefixed_u32_value(input@).is_some(),
        r.is_ok() ==> r.unwrap() == prefixed_u32_value(input@).unwrap(),
        plain_number(input@) ==> (r.is_ok() <==> plain_number_value(input@).is_some()),
        plain_number(input@) && r.is_ok() ==> r.unwrap() == plain_number_value(input@).unwrap(),
{
    parse_prefixed_u32(input)
}

} // verus!

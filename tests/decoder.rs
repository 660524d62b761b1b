use espmonitor::decoder::{DecodedOutput, LogFormat, OutputDecoder, OutputItem};
use espmonitor::error::MonitorError;

fn feed_all(format: LogFormat, chunks: &[&[u8]]) -> (Vec<OutputItem>, Vec<u8>) {
    let fw: &[u8] = b"\x7fELF";
    let mut dec = OutputDecoder::new(format, Some(fw)).unwrap();
    let mut items = Vec::new();
    for c in chunks {
        // A fresh output per chunk, as a caller that prints each chunk does.
        let mut out = DecodedOutput::new();
        dec.feed(c, &mut out);
        items.extend(out.items);
    }
    (items, dec.pending)
}

fn text(bytes: &[u8]) -> Vec<OutputItem> {
    bytes.iter().map(|&b| OutputItem::Text(b)).collect()
}

#[test]
fn serial_passes_bytes_through() {
    let (items, pending) = feed_all(LogFormat::Serial, &[b"hello ", b"\x1b[0mworld\n"]);
    assert_eq!(items, text(b"hello \x1b[0mworld\n"));
    assert!(pending.is_empty());
}

#[test]
fn serial_chunking_does_not_matter() {
    let stream: &[u8] = b"I (31) boot: ESP-IDF v5.1\r\nabc\x00def";
    let whole = feed_all(LogFormat::Serial, &[stream]);
    let split = feed_all(LogFormat::Serial, &[&stream[..1], &stream[1..10], &stream[10..], b""]);
    assert_eq!(whole, split);
}

#[test]
fn defmt_emits_complete_frames_in_order() {
    let (items, pending) = feed_all(LogFormat::Defmt, &[b"\x01\x02", b"\x00\x03\x00\x04"]);
    assert_eq!(items, vec![OutputItem::Frame(vec![1, 2]), OutputItem::Frame(vec![3])]);
    assert_eq!(pending, vec![4]);
}

#[test]
fn defmt_chunking_does_not_matter() {
    let stream: &[u8] = b"\x05\x06\x00\x00\x07\x08\x09\x00\x0a";
    let whole = feed_all(LogFormat::Defmt, &[stream]);
    for cut in 0..=stream.len() {
        let split = feed_all(LogFormat::Defmt, &[&stream[..cut], &stream[cut..]]);
        assert_eq!(whole, split);
    }
    let bytewise: Vec<&[u8]> = stream.chunks(1).collect();
    assert_eq!(whole, feed_all(LogFormat::Defmt, &bytewise));
}

#[test]
fn defmt_needs_firmware() {
    assert_eq!(
        OutputDecoder::new(LogFormat::Defmt, None).err(),
        Some(MonitorError::MissingFirmwareImage)
    );
    assert!(OutputDecoder::new(LogFormat::Serial, None).is_ok());
    let fw: &[u8] = b"\x7fELF";
    let dec = OutputDecoder::new(LogFormat::Defmt, Some(fw)).unwrap();
    assert_eq!(dec.format, LogFormat::Defmt);
    assert!(dec.pending.is_empty());
    assert!(OutputDecoder::new(LogFormat::Serial, Some(fw)).is_ok());
}

#[test]
fn addresses_follow_the_line_they_end() {
    let (items, pending) = feed_all(
        LogFormat::Serial,
        &[b"Backtrace: 0x4200", b"1a2b:0x3FC8aBcD 0x1234\r\n", b"PC 0x40000001"],
    );
    let mut expected = text(b"Backtrace: 0x42001a2b:0x3FC8aBcD 0x1234\r\n");
    expected.push(OutputItem::Address(0x4200_1a2b));
    expected.push(OutputItem::Address(0x3fc8_abcd));
    expected.extend(text(b"PC 0x40000001"));
    assert_eq!(items, expected);
    // The last line has not ended yet.
    assert_eq!(pending, b"PC 0x40000001".to_vec());
}

#[test]
fn annotation_stays_in_place_across_chunks() {
    let whole = feed_all(LogFormat::Serial, &[b"A 0x40000000\nB\n"]);
    let split = feed_all(LogFormat::Serial, &[b"A 0x40000000\nB", b"\n"]);
    assert_eq!(whole, split);
    let mut expected = text(b"A 0x40000000\n");
    expected.push(OutputItem::Address(0x4000_0000));
    expected.extend(text(b"B\n"));
    assert_eq!(whole.0, expected);
}

#[test]
fn address_markers_do_not_overlap() {
    let (items, _) = feed_all(LogFormat::Serial, &[b"0x0x123456780x9abcdef0x\n"]);
    let addrs: Vec<u32> = items
        .iter()
        .filter_map(|i| if let OutputItem::Address(a) = i { Some(*a) } else { None })
        .collect();
    assert_eq!(addrs, vec![0x1234_5678, 0x9abc_def0]);
    let (items, _) = feed_all(LogFormat::Serial, &[b"0x1234567 0xg2345678\n"]);
    assert!(items.iter().all(|i| matches!(i, OutputItem::Text(_))));
}

#[test]
fn serial_address_chunking_does_not_matter() {
    let stream: &[u8] = b"abort() at 0x40081234\nnext 0xDEADBEEF\n0x0000";
    let whole = feed_all(LogFormat::Serial, &[stream]);
    for cut in 0..=stream.len() {
        assert_eq!(whole, feed_all(LogFormat::Serial, &[&stream[..cut], &stream[cut..]]));
    }
}

#[test]
fn shown_output_is_the_same_for_three_cuts() {
    for format in [LogFormat::Serial, LogFormat::Defmt] {
        let stream: &[u8] = b"x 0x40081234\n\x01\x00y\n\x02";
        let whole = feed_all(format, &[stream]);
        for a in 0..=stream.len() {
            for b in a..=stream.len() {
                let split = feed_all(format, &[&stream[..a], &stream[a..b], &stream[b..]]);
                assert_eq!(whole, split);
            }
        }
    }
}

use std::collections::HashMap;

use espmonitor::partitions::{select_partitions, EraseError, PartitionEntry};

fn part(name: &str, is_data: bool, subtype: u8, offset: u32, size: u32) -> PartitionEntry {
    PartitionEntry { name: name.to_string(), is_data, subtype, offset, size }
}

fn table() -> Vec<PartitionEntry> {
    vec![
        part("nvs", true, 0x02, 0x9000, 0x6000),
        part("phy_init", true, 0x01, 0xf000, 0x1000),
        part("factory", false, 0x00, 0x10000, 0x100000),
        part("storage", true, 0x81, 0x110000, 0x10000),
        part("media", true, 0x81, 0x120000, 0x10000),
    ]
}

fn offsets(t: &[PartitionEntry], chosen: &HashMap<u32, usize>) -> Vec<u32> {
    let mut o: Vec<u32> = chosen.keys().copied().collect();
    o.sort();
    for (off, &i) in chosen {
        assert_eq!(t[i].offset, *off);
    }
    o
}

#[test]
fn no_table_is_an_error() {
    assert_eq!(
        select_partitions(None, Some(vec!["nvs".to_string()]), None),
        Err(EraseError::MissingPartitionTable)
    );
}

#[test]
fn by_label_and_by_data_type_once_each() {
    let t = table();
    let idx = select_partitions(
        Some(&t),
        Some(vec!["nvs".to_string(), "storage".to_string(), "nvs".to_string()]),
        Some(vec![0x81, 0x02]),
    )
    .unwrap();
    assert_eq!(idx.len(), 3);
    assert_eq!(offsets(&t, &idx), vec![0x9000, 0x110000, 0x120000]);
}

#[test]
fn app_partitions_are_not_data() {
    let t = table();
    let idx = select_partitions(Some(&t), None, Some(vec![0x00])).unwrap();
    assert!(idx.is_empty());
}

#[test]
fn first_missing_label_is_reported() {
    let t = table();
    assert_eq!(
        select_partitions(
            Some(&t),
            Some(vec!["nvs".to_string(), "ota_0".to_string(), "ota_1".to_string()]),
            None
        ),
        Err(EraseError::MissingPartition("ota_0".to_string()))
    );
}

#[test]
fn nothing_asked_nothing_chosen() {
    let t = table();
    assert_eq!(select_partitions(Some(&t), None, None), Ok(HashMap::new()));
}

#[test]
fn later_partition_at_same_offset_wins() {
    let t = vec![part("a", true, 0x02, 0x9000, 0x1000), part("b", true, 0x02, 0x9000, 0x2000)];
    let idx = select_partitions(Some(&t), Some(vec!["a".to_string(), "b".to_string()]), None).unwrap();
    assert_eq!(idx, HashMap::from([(0x9000, 1)]));
}

use espmonitor::symbols::{resolve, Symbol, SymbolTable};

fn table() -> SymbolTable {
    SymbolTable::from_sorted(vec![
        Symbol { address: 0x4200_0000, name: "app_main".to_string() },
        Symbol { address: 0x4200_0100, name: "panic_handler".to_string() },
        Symbol { address: 0x4200_0400, name: "idle_task".to_string() },
    ])
    .unwrap()
}

#[test]
fn nearest_preceding_symbol() {
    let t = table();
    assert_eq!(t.len(), 3);
    assert_eq!(t.lookup(0x4200_0000), Some(("app_main".to_string(), 0)));
    assert_eq!(t.lookup(0x4200_00ff), Some(("app_main".to_string(), 0xff)));
    assert_eq!(t.lookup(0x4200_0104), Some(("panic_handler".to_string(), 4)));
    assert_eq!(t.lookup(0xffff_ffff), Some(("idle_task".to_string(), 0xbdff_fbff)));
}

#[test]
fn before_first_symbol_is_unknown() {
    assert_eq!(table().lookup(0x3fff_ffff), None);
    assert_eq!(resolve(None, 0x4200_0000), None);
    let t = table();
    assert_eq!(resolve(Some(&t), 0x4200_0401), Some(("idle_task".to_string(), 1)));
}

#[test]
fn unordered_symbols_are_refused() {
    let out_of_order = vec![
        Symbol { address: 2, name: "b".to_string() },
        Symbol { address: 1, name: "a".to_string() },
    ];
    assert!(SymbolTable::from_sorted(out_of_order).is_none());
    let repeated = vec![
        Symbol { address: 1, name: "a".to_string() },
        Symbol { address: 1, name: "b".to_string() },
    ];
    assert!(SymbolTable::from_sorted(repeated).is_none());
    let empty = SymbolTable::from_sorted(Vec::new()).unwrap();
    assert_eq!(empty.lookup(0), None);
}

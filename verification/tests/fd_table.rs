use gezellij::fd_table::FdTable;

#[test]
fn reserved_ids_hold_no_descriptor() {
    let mut table = FdTable::new();
    table.set(3, None);
    table.set(1, Some(11));
    table.set(2, Some(12));
    assert_eq!(table.get(1), Some(11));
    assert_eq!(table.get(3), None);
    assert_eq!(table.get(9), None);
    assert_eq!(table.open_terminals(), vec![(1, 11), (2, 12)]);
    table.set(3, Some(13));
    table.clear(1);
    assert_eq!(table.open_terminals(), vec![(2, 12), (3, 13)]);
}

use lb_inter_node_exporter::error::Error;
use lb_inter_node_exporter::vip_table::{TableOp, VipTable, VIP_PRESENT, VIP_TABLE_CAPACITY};

#[test]
fn new_table_is_empty() {
    let t = VipTable::new();
    assert_eq!(t.len(), 0);
    assert!(!t.contains(0));
    assert!(!t.contains(0x0a00_0001));
}

#[test]
fn default_capacity_is_1024() {
    assert_eq!(VIP_TABLE_CAPACITY, 1024);
    assert_eq!(VIP_PRESENT, 0);
}

#[test]
fn upsert_adds_the_address() {
    let mut t = VipTable::new();
    assert!(t.upsert(0x0a00_0001).is_ok());
    assert!(t.contains(0x0a00_0001));
    assert!(!t.contains(0x0a00_0002));
    assert_eq!(t.len(), 1);
}

#[test]
fn upsert_twice_leaves_one_entry() {
    let mut t = VipTable::new();
    assert!(t.upsert(0xc0a8_0001).is_ok());
    assert!(t.upsert(0xc0a8_0001).is_ok());
    assert!(t.contains(0xc0a8_0001));
    assert_eq!(t.len(), 1);
}

#[test]
fn remove_takes_the_address_out() {
    let mut t = VipTable::new();
    t.upsert(1).unwrap();
    t.upsert(2).unwrap();
    t.remove(1);
    assert!(!t.contains(1));
    assert!(t.contains(2));
    assert_eq!(t.len(), 1);
}

#[test]
fn remove_of_an_absent_address_changes_nothing() {
    let mut t = VipTable::new();
    t.upsert(1).unwrap();
    t.remove(7);
    assert!(t.contains(1));
    assert_eq!(t.len(), 1);
    let mut empty = VipTable::new();
    empty.remove(7);
    assert_eq!(empty.len(), 0);
}

#[test]
fn remove_twice_is_the_same_as_once() {
    let mut t = VipTable::new();
    t.upsert(1).unwrap();
    t.remove(1);
    t.remove(1);
    assert!(!t.contains(1));
    assert_eq!(t.len(), 0);
}

#[test]
fn full_table_refuses_a_new_address() {
    let mut t = VipTable::with_capacity(2);
    t.upsert(1).unwrap();
    t.upsert(2).unwrap();
    let r = t.upsert(3);
    assert!(matches!(r, Err(Error::VipTableFull(3))));
    assert!(t.contains(1));
    assert!(t.contains(2));
    assert!(!t.contains(3));
    assert_eq!(t.len(), 2);
}

#[test]
fn full_table_accepts_an_address_it_holds() {
    let mut t = VipTable::with_capacity(2);
    t.upsert(1).unwrap();
    t.upsert(2).unwrap();
    assert!(t.upsert(2).is_ok());
    assert_eq!(t.len(), 2);
}

#[test]
fn full_table_has_room_again_after_a_remove() {
    let mut t = VipTable::with_capacity(1);
    t.upsert(1).unwrap();
    assert!(t.upsert(2).is_err());
    t.remove(1);
    assert!(t.upsert(2).is_ok());
    assert!(t.contains(2));
    assert!(!t.contains(1));
}

#[test]
fn table_of_capacity_zero_refuses_everything() {
    let mut t = VipTable::with_capacity(0);
    assert!(matches!(t.upsert(9), Err(Error::VipTableFull(9))));
    assert_eq!(t.len(), 0);
}

#[test]
fn default_table_holds_1024_addresses_and_no_more() {
    let mut t = VipTable::new();
    for a in 0..1024u32 {
        assert!(t.upsert(a).is_ok());
    }
    assert_eq!(t.len(), 1024);
    assert!(matches!(t.upsert(5000), Err(Error::VipTableFull(5000))));
    assert!(t.upsert(17).is_ok());
    assert_eq!(t.len(), 1024);
    assert!(t.contains(0));
    assert!(t.contains(1023));
    assert!(!t.contains(5000));
}

#[test]
fn apply_makes_each_change() {
    let mut t = VipTable::with_capacity(1);
    assert!(t.apply(TableOp::Nothing).is_ok());
    assert_eq!(t.len(), 0);
    assert!(t.apply(TableOp::Upsert(4)).is_ok());
    assert!(t.contains(4));
    assert!(matches!(t.apply(TableOp::Upsert(5)), Err(Error::VipTableFull(5))));
    assert!(t.contains(4));
    assert!(!t.contains(5));
    assert!(t.apply(TableOp::Remove(4)).is_ok());
    assert!(!t.contains(4));
    assert!(t.apply(TableOp::Remove(4)).is_ok());
    assert_eq!(t.len(), 0);
}

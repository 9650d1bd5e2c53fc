use recordkeeper::chrono::CommunityChrono;
use recordkeeper::flags::{FlagStore, FlagType};
use std::cmp::Ordering;

#[test]
fn insert_and_delete_scenario() {
    let mut flags = FlagStore::new(FlagType::Byte, 16);
    let mut max = 0u8;
    {
        let mut order = CommunityChrono::new(&mut flags, &mut max);
        order.insert(5);
        order.insert(9);
    }
    assert_eq!(flags.get(5), Some(1));
    assert_eq!(flags.get(9), Some(2));
    assert_eq!(max, 2);
    {
        let mut order = CommunityChrono::new(&mut flags, &mut max);
        order.insert(5);
    }
    assert_eq!(flags.get(5), Some(1));
    assert_eq!(max, 2);
    CommunityChrono::new(&mut flags, &mut max).delete(9);
    assert_eq!(max, 1);
    assert_eq!(flags.get(9), Some(0));
    CommunityChrono::new(&mut flags, &mut max).delete(5);
    assert_eq!(max, 0);
    assert_eq!(flags.get(5), Some(0));
}

#[test]
fn delete_of_lower_rank_keeps_max() {
    let mut flags = FlagStore::new(FlagType::Byte, 8);
    let mut max = 0u8;
    let mut order = CommunityChrono::new(&mut flags, &mut max);
    order.insert(1);
    order.insert(2);
    order.insert(3);
    order.delete(2);
    assert!(!order.is_present(2));
    assert!(order.is_present(3));
    order.insert(2);
    drop(order);
    assert_eq!(flags.get(2), Some(4));
    assert_eq!(max, 4);
}

#[test]
fn compare_and_swap() {
    let mut flags = FlagStore::new(FlagType::Byte, 8);
    let mut max = 0u8;
    let mut order = CommunityChrono::new(&mut flags, &mut max);
    order.insert(4);
    order.insert(6);
    assert_eq!(order.cmp_entries(4, 6), Ordering::Less);
    assert_eq!(order.cmp_entries(0, 4), Ordering::Less);
    assert_eq!(order.cmp_entries(0, 1), Ordering::Equal);
    assert_eq!(order.cmp_entries(100, 0), Ordering::Less);
    order.swap(4, 6);
    assert_eq!(order.cmp_entries(4, 6), Ordering::Greater);
    drop(order);
    assert_eq!(flags.get(4), Some(2));
    assert_eq!(flags.get(6), Some(1));
    assert_eq!(max, 2);
}

#[test]
fn delete_on_empty_order_keeps_zero() {
    let mut flags = FlagStore::new(FlagType::Byte, 4);
    let mut max = 0u8;
    CommunityChrono::new(&mut flags, &mut max).delete(1);
    assert_eq!(max, 0);
    assert!(!CommunityChrono::new(&mut flags, &mut max).is_present(9));
}

#[test]
fn flag_store_basics() {
    let mut f = FlagStore::new(FlagType::FourBits, 3);
    assert_eq!(f.len(), 3);
    assert_eq!(f.get(3), None);
    f.set(2, 15);
    assert_eq!(f.get(2), Some(15));
    assert_eq!(f.flag_type(), FlagType::FourBits);
    assert_eq!(FlagType::Bit.max_value(), 1);
    assert_eq!(FlagType::Short.max_value(), 65535);
}

use recordkeeper::codec::{decode, SaveBin};
use recordkeeper::item::{Inventory, ItemSlot, ItemType};

fn item(item_id: u16, slot_index: u16) -> ItemSlot {
    ItemSlot { item_id, slot_index, item_type: 0, chronological_id: 0, amount: 1, flags: 1 }
}

fn inventory() -> Inventory {
    let mut inv: Inventory = decode(&vec![0u8; Inventory::size()]).unwrap();
    inv.cylinders[0] = item(11, 0);
    inv.cylinders[1] = item(12, 1);
    inv.gems[5] = item(21, 5);
    inv
}

#[test]
fn split_same_category() {
    let mut inv = inventory();
    {
        let (a, b) = inv.split_slots_mut(ItemType::Cylinder, 11, ItemType::Cylinder, 12);
        a.amount = u16::MAX;
        assert_eq!(b.amount, 1);
        b.amount = 7;
        assert_eq!(a.amount, u16::MAX);
    }
    assert_eq!(inv.cylinders[0].amount(), u16::MAX);
    assert_eq!(inv.cylinders[1].amount(), 7);
    {
        let (a, b) = inv.split_slots_mut(ItemType::Cylinder, 12, ItemType::Cylinder, 11);
        assert_eq!(a.item_id(), 12);
        assert_eq!(b.item_id(), 11);
    }
}

#[test]
fn split_two_element_category() {
    let mut two = vec![item(1, 0), item(2, 1)];
    let mut inv = inventory();
    inv.exchange = std::mem::take(&mut two);
    {
        let (a, b) = inv.split_slots_mut(ItemType::Exchange, 1, ItemType::Exchange, 2);
        a.item_id = u16::MAX;
        assert_eq!(b.item_id(), 2);
        b.amount = 0;
        assert_eq!(a.amount(), 1);
    }
    assert_eq!(inv.exchange[0].item_id(), u16::MAX);
    assert_eq!(inv.exchange[1].item_id(), 2);
    assert_eq!(inv.exchange[0].amount(), 1);
    assert_eq!(inv.exchange[1].amount(), 0);
}

#[test]
fn split_different_categories() {
    let mut inv = inventory();
    {
        let (a, b) = inv.split_slots_mut(ItemType::Gem, 21, ItemType::Cylinder, 12);
        std::mem::swap(&mut a.amount, &mut b.amount);
        a.amount = 40;
    }
    assert_eq!(inv.gems[5].amount(), 40);
    assert_eq!(inv.cylinders[1].amount(), 1);
    assert_eq!(inv.slots(ItemType::Gem)[5].item_id(), 21);
}

#[test]
fn slots_by_category() {
    let mut inv = inventory();
    assert_eq!(inv.slots(ItemType::Collection).len(), 1500);
    assert_eq!(inv.slots(ItemType::Extra).len(), 64);
    inv.slots_mut(ItemType::Info)[3] = item(31, 3);
    assert_eq!(inv.infos[3].item_id(), 31);
    assert_eq!(inv.slots(ItemType::Info)[3].index(), 3);
}

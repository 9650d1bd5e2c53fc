use recordkeeper::character::{CharacterClass, ClassAccessory};
use recordkeeper::codec::{decode, SaveBin};
use recordkeeper::dlc4::Dlc4;
use recordkeeper::item::{GemLevels, ItemSlot, ItemType, SlotFlags, TypeFromIntError};
use recordkeeper::slot::{Slot, SlotMut};

fn class() -> CharacterClass {
    decode(&vec![0u8; CharacterClass::size()]).unwrap()
}

fn item(item_id: u16, slot_index: u16, item_type: u32, flags: u8) -> ItemSlot {
    ItemSlot { item_id, slot_index, item_type, chronological_id: 0, amount: 1, flags }
}

#[test]
fn integer_slots_empty_at_max() {
    assert!(Slot(u8::MAX).is_empty());
    assert!(!Slot(0u8).is_empty());
    assert!(Slot(u16::MAX).is_empty());
    assert!(!Slot(0xfffeu16).is_empty());
}

#[test]
fn set_empty_then_is_empty() {
    let mut c = class();
    {
        let mut s = c.art_slot_mut(3);
        assert!(!s.is_empty());
        s.set_empty();
        assert!(s.is_empty());
        s.set_empty();
        assert!(s.is_empty());
    }
    assert_eq!(c.arts[3], u16::MAX);
    assert_eq!(c.arts[2], 0);
    c.gem_slot_mut(9).set_empty();
    assert_eq!(c.gems[9], u8::MAX);
    assert!(c.gem_slot(9).is_empty());
    c.skill_slot_mut(0).set_empty();
    assert!(c.skill_slot(0).is_empty());
    assert_eq!(c.skills().len(), 8);
    assert_eq!(c.gems().len(), 10);
    assert!(c.arts()[3].is_empty());
}

#[test]
fn set_empty_twice_same_as_once() {
    let mut a = 7u16;
    let mut b = 7u16;
    SlotMut(&mut a).set_empty();
    {
        let mut s = SlotMut(&mut b);
        s.set_empty();
        s.set_empty();
    }
    assert_eq!(a.to_le_bytes(), b.to_le_bytes());
}

#[test]
fn accessory_emptiness() {
    assert!(Slot(ClassAccessory { bdat_id: 0, slot_index: 4, item_type: 5 }).is_empty());
    assert!(Slot(ClassAccessory { bdat_id: 3, slot_index: 4, item_type: 0 }).is_empty());
    assert!(!Slot(ClassAccessory { bdat_id: 3, slot_index: 0, item_type: 5 }).is_empty());
    let mut acc = ClassAccessory { bdat_id: 3, slot_index: 4, item_type: 5 };
    SlotMut(&mut acc).set_empty();
    assert_eq!(acc, ClassAccessory::default());
}

#[test]
fn accessory_from_inventory() {
    let mut c = class();
    c.accessory_slot_mut(1).set_from_inventory(&item(100, 3, 5, SlotFlags::Active.mask()));
    let acc = c.accessory_slot(1).0;
    assert_eq!(acc.bdat_id(), 100);
    assert_eq!(acc.slot_index(), 3);
    assert_eq!(acc.item_type(), ItemType::Accessory);
    c.accessory_slot_mut(1).set_from_inventory(&item(100, 3, 5, 0));
    assert_eq!(c.accessory_slot(1).0, ClassAccessory::default());
    assert!(c.accessory_slot(1).is_empty());
}

#[test]
fn item_types() {
    assert_eq!(ItemType::try_from(3), Ok(ItemType::Collection));
    assert_eq!(ItemType::try_from(9), Ok(ItemType::Extra));
    assert_eq!(ItemType::try_from(0), Err(TypeFromIntError(0)));
    assert_eq!(ItemType::try_from(10), Err(TypeFromIntError(10)));
    assert_eq!(ItemType::Collectopedia.lang_id(), "collepedia");
    assert_eq!(ItemType::Precious.lang_id(), "precious");
    assert_eq!(ItemType::Gem.raw(), 2);
    assert_eq!(item(1, 0, 7, 1).item_type(), ItemType::Precious);
    assert!(!item(1, 0, 7, SlotFlags::Favorite.mask()).is_valid());
}

#[test]
fn chronological_id_of_slot() {
    let mut s = item(1, 2, 3, 1);
    s.set_chronological_id(44);
    assert_eq!(s.chronological_id(), 44);
    assert_eq!(s.item_id(), 1);
}

#[test]
fn gem_levels() {
    let mut g: GemLevels = decode(&vec![0u8; GemLevels::size()]).unwrap();
    assert_eq!(g.get_item(0), None);
    assert_eq!(g.get_item(1), None);
    g.set_item(1, 12000);
    assert_eq!(g.get_item(1), Some(12000));
    g.set_item(20, 12345);
    assert_eq!(g.get_item(20), Some(12345));
    assert_eq!(g.get_item(21), None);
}

#[test]
fn enemypedia_counts() {
    let mut d: Dlc4 = decode(&vec![0u8; Dlc4::size()]).unwrap();
    d.set_enemypedia_count(0, 1);
    d.set_enemypedia_count(199, 2);
    d.set_enemypedia_count(200, 3);
    d.set_enemypedia_count(399, 4);
    assert_eq!(d.get_enemypedia_count(0), 1);
    assert_eq!(d.get_enemypedia_count(199), 2);
    assert_eq!(d.get_enemypedia_count(200), 3);
    assert_eq!(d.get_enemypedia_count(399), 4);
    assert_eq!(d.enemypedia_200_399[0], 3);
    assert_eq!(d.get_enemypedia_count(5), 0);
}

#[test]
fn battle_manuals() {
    let mut d: Dlc4 = decode(&vec![0u8; Dlc4::size()]).unwrap();
    assert!(d.battle_manual_slot(36, 37).is_empty());
    d.battle_manual_slot_mut(36, 37)
        .set_from_inventory(&item(900, 12, 5, SlotFlags::Active.mask()));
    let acc = d.battle_manual_slot(36, 37).0;
    assert_eq!(acc.bdat_id(), 900);
    assert_eq!(d.extra_inventory[35].battle_manual[36].slot_index(), 12);
    assert!(d.battle_manual_slot(37, 36).is_empty());
}

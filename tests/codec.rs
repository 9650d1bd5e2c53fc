use recordkeeper::character::{CharacterClass, ClassAccessory};
use recordkeeper::codec::{decode, decode_into, encode, SaveBin};
use recordkeeper::dlc4::Dlc4;
use recordkeeper::error::SaveError;
use recordkeeper::item::{GemLevels, Inventory, ItemSlot, LegacyForge};
use recordkeeper::save::{MapTime, PlayTime, Pos, SaveData, SaveTimestamp, SAVE_MAGIC, SAVE_VERSION};

fn header_buffer() -> Vec<u8> {
    let mut bytes = vec![0u8; SaveData::size()];
    bytes[0..4].copy_from_slice(&SAVE_MAGIC.to_le_bytes());
    bytes[4] = SAVE_VERSION;
    bytes
}

#[test]
fn integers_are_little_endian() {
    let mut buf = vec![0u8; 6];
    encode(&0x1234u16, &mut buf).unwrap();
    assert_eq!(buf, vec![0x34, 0x12, 0, 0, 0, 0]);
    encode(&0xb378fa6au32, &mut buf).unwrap();
    assert_eq!(buf, vec![0x6a, 0xfa, 0x78, 0xb3, 0, 0]);
    assert_eq!(decode::<u32>(&buf).unwrap(), 0xb378fa6a);
    assert_eq!(decode::<u16>(&buf[1..]).unwrap(), 0x78fa);
}

#[test]
fn record_sizes() {
    assert_eq!(ClassAccessory::size(), 6);
    assert_eq!(ItemSlot::size(), 16);
    assert_eq!(CharacterClass::size(), 68);
    assert_eq!(GemLevels::size(), 40);
    assert_eq!(LegacyForge::size(), 256);
    assert_eq!(Inventory::size(), 70376);
    assert_eq!(Dlc4::size(), 33168);
    assert_eq!(SaveData::size(), 0x6ac);
}

#[test]
fn zero_save_decodes_and_reencodes() {
    let bytes = header_buffer();
    let save: SaveData = decode(&bytes).unwrap();
    assert_eq!(save.gold, 0);
    assert_eq!(save.map_id, 0);
    assert_eq!(save.play_time, PlayTime { raw: 0 });
    assert_eq!(save.magic, SAVE_MAGIC);
    assert_eq!(save.save_version, SAVE_VERSION);
    let mut out = vec![0u8; SaveData::size()];
    encode(&save, &mut out).unwrap();
    assert_eq!(out, bytes);
}

#[test]
fn zero_records_have_empty_slots() {
    let inv: Inventory = decode(&vec![0u8; Inventory::size()]).unwrap();
    assert_eq!(inv.key_items.len(), 200);
    assert!(inv.accessories.iter().all(|s| !s.is_valid()));
    assert!(inv.gems.iter().all(|s| !s.is_valid()));
    let class: CharacterClass = decode(&vec![0u8; CharacterClass::size()]).unwrap();
    for i in 0..3 {
        assert!(class.accessory_slot(i).is_empty());
    }
    assert!(class.accessories().iter().all(|s| s.is_empty()));
}

#[test]
fn wrong_magic_is_rejected() {
    let mut bytes = header_buffer();
    bytes[0] ^= 1;
    assert_eq!(decode::<SaveData>(&bytes).unwrap_err(), SaveError::UnrecognizedFormat);
}

#[test]
fn wrong_version_is_rejected() {
    let mut bytes = header_buffer();
    bytes[4] = 11;
    assert_eq!(decode::<SaveData>(&bytes).unwrap_err(), SaveError::UnsupportedVersion(11, 10));
}

#[test]
fn decode_into_keeps_value_on_error() {
    let bytes = header_buffer();
    let mut save: SaveData = decode(&bytes).unwrap();
    save.gold = 77;
    let mut bad = bytes.clone();
    bad[4] = 9;
    assert_eq!(decode_into(&bad, &mut save), Err(SaveError::UnsupportedVersion(9, 10)));
    assert_eq!(save.gold, 77);
    assert_eq!(decode_into(&bytes, &mut save), Ok(()));
    assert_eq!(save.gold, 0);
}

#[test]
fn short_buffers_are_rejected() {
    let bytes = vec![0u8; ItemSlot::size() - 1];
    assert_eq!(decode::<ItemSlot>(&bytes).unwrap_err(), SaveError::UnexpectedEof);
    let slot: ItemSlot = decode(&vec![0u8; 16]).unwrap();
    let mut short = vec![9u8; 15];
    assert_eq!(encode(&slot, &mut short), Err(SaveError::UnexpectedEof));
    assert_eq!(short, vec![9u8; 15]);
}

#[test]
fn header_round_trip() {
    let save = SaveData {
        magic: SAVE_MAGIC,
        save_version: SAVE_VERSION,
        play_time: PlayTime { raw: 123456 },
        timestamp: SaveTimestamp { time: 0x01020304, date: 0x0a0b0c0d },
        gold: 999_999,
        saved_event_flow: 42,
        map_id: 0xffff,
        map_time: MapTime { hour: 23, minute: 59 },
        player_pos: Pos { x: 1.5f32.to_bits(), y: (-2.0f32).to_bits(), z: 0 },
    };
    let mut bytes = vec![0xaau8; SaveData::size() + 3];
    encode(&save, &mut bytes).unwrap();
    assert_eq!(&bytes[0x20..0x24], &999_999u32.to_le_bytes());
    assert_eq!(&bytes[0x684..0x688], &42u32.to_le_bytes());
    // padding between fields and the bytes past the record are untouched
    assert_eq!(bytes[5], 0xaa);
    assert_eq!(bytes[SaveData::size()], 0xaa);
    let back: SaveData = decode(&bytes).unwrap();
    assert_eq!(back, save);
}

#[test]
fn item_slot_layout_and_round_trip() {
    let mut bytes = vec![0u8; 16];
    bytes[0] = 0x10;
    bytes[2] = 3;
    bytes[4] = 5;
    bytes[8] = 7;
    bytes[12] = 2;
    bytes[14] = 1;
    bytes[15] = 0x55;
    let slot: ItemSlot = decode(&bytes).unwrap();
    assert_eq!(slot.item_id(), 0x10);
    assert_eq!(slot.index(), 3);
    assert_eq!(slot.item_type, 5);
    assert_eq!(slot.chronological_id(), 7);
    assert_eq!(slot.amount(), 2);
    assert!(slot.is_valid());
    let mut out = vec![0x55u8; 16];
    encode(&slot, &mut out).unwrap();
    assert_eq!(out, bytes);
}

#[test]
fn character_class_round_trip() {
    let mut bytes = vec![0u8; CharacterClass::size()];
    for (i, b) in bytes.iter_mut().enumerate().take(66) {
        *b = i as u8 + 1;
    }
    let class: CharacterClass = decode(&bytes).unwrap();
    assert_eq!(class.cp, u32::from_le_bytes([1, 2, 3, 4]));
    assert_eq!(class.gems[0], 9);
    assert_eq!(class.arts[0], u16::from_le_bytes([19, 20]));
    assert_eq!(class.accessories[2].slot_index(), u16::from_le_bytes([63, 64]));
    let mut out = vec![0u8; CharacterClass::size()];
    encode(&class, &mut out).unwrap();
    assert_eq!(out, bytes);
}

#[test]
fn dlc4_round_trip() {
    let mut bytes = vec![0u8; Dlc4::size()];
    bytes[199] = 4;
    bytes[200 + 512 + 6] = 0x21;
    bytes[0x80c8 + 50] = 9;
    let dlc: Dlc4 = decode(&bytes).unwrap();
    assert_eq!(dlc.get_enemypedia_count(199), 4);
    assert_eq!(dlc.get_enemypedia_count(250), 9);
    assert_eq!(dlc.battle_manual_slot(2, 2).0.bdat_id(), 0x21);
    let mut out = vec![0u8; Dlc4::size()];
    encode(&dlc, &mut out).unwrap();
    assert_eq!(out, bytes);
}

#[test]
fn reencoding_over_source_keeps_every_byte() {
    let mut bytes = header_buffer();
    let mut x: u32 = 12345;
    for b in bytes.iter_mut().skip(5) {
        x = x.wrapping_mul(1103515245).wrapping_add(12345);
        *b = (x >> 16) as u8;
    }
    let save: SaveData = decode(&bytes).unwrap();
    let mut out = bytes.clone();
    encode(&save, &mut out).unwrap();
    assert_eq!(out, bytes);
}

#[test]
fn flag_bytes_read_as_booleans() {
    let mut bytes = vec![0u8; LegacyForge::size()];
    bytes[2] = 1;
    bytes[4] = 0x34;
    bytes[5] = 0x12;
    bytes[6] = 2;
    let forge: LegacyForge = decode(&bytes).unwrap();
    assert!(forge.data[0].valid);
    assert!(forge.data[1].valid);
    assert_eq!(forge.data[1].enhance_id, 0x1234);
    assert!(!forge.data[2].valid);
    let mut out = bytes.clone();
    encode(&forge, &mut out).unwrap();
    // a flag byte other than 0 or 1 is written back as 1
    assert_eq!(out[6], 1);
    out[6] = 2;
    assert_eq!(out, bytes);
}

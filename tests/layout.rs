use recordkeeper::character::CharacterClass;
use recordkeeper::codec::SaveBin;
use recordkeeper::dlc4::Dlc4;
use recordkeeper::item::{Inventory, ItemSlot};
use recordkeeper::layout::{FieldLayout, LayoutDescriptor, LayoutError};
use recordkeeper::save::SaveData;

fn at(size: usize, loc: usize) -> FieldLayout {
    FieldLayout { size, loc: Some(loc) }
}

fn next(size: usize) -> FieldLayout {
    FieldLayout { size, loc: None }
}

fn save_fields() -> Vec<FieldLayout> {
    vec![
        next(4),
        next(1),
        at(4, 0x10),
        at(8, 0x18),
        next(4),
        at(4, 0x684),
        at(2, 0x68c),
        next(4),
        at(12, 0x6a0),
    ]
}

#[test]
fn record_layouts_match_codecs() {
    let item = LayoutDescriptor {
        fields: vec![next(2), next(2), next(4), next(4), at(2, 0xc), next(1)],
        max_size: Some(16),
    };
    assert_eq!(item.compute_size(), Ok(ItemSlot::size()));
    let class = LayoutDescriptor {
        fields: vec![next(4), next(2), next(1), next(1), at(10, 8), next(14), next(16), next(18)],
        max_size: Some(68),
    };
    assert_eq!(class.compute_size(), Ok(CharacterClass::size()));
    let dlc = LayoutDescriptor {
        fields: vec![next(200), next(64 * 512), at(200, 0x80c8)],
        max_size: None,
    };
    assert_eq!(dlc.compute_size(), Ok(Dlc4::size()));
    let mut inv = vec![next(4), at(16 * 16, 0x28)];
    for n in [300, 1500, 800, 1500, 200, 16, 64] {
        inv.push(next(16 * n));
    }
    let inv = LayoutDescriptor { fields: inv, max_size: None };
    assert_eq!(inv.compute_size(), Ok(Inventory::size()));
    let save = LayoutDescriptor { fields: save_fields(), max_size: None };
    assert_eq!(save.compute_size(), Ok(SaveData::size()));
}

#[test]
fn overlapping_offset_is_rejected() {
    // a second position declared 8 bytes after a 12-byte one
    let mut fields = save_fields();
    fields.push(at(12, 0x6a8));
    let save = LayoutDescriptor { fields, max_size: None };
    assert_eq!(
        save.compute_size(),
        Err(LayoutError::OutOfOrder { field: 9, loc: 0x6a8, current: 0x6ac })
    );
}

#[test]
fn decreasing_offsets_are_rejected() {
    let d = LayoutDescriptor { fields: vec![at(1, 10), at(1, 4)], max_size: None };
    assert_eq!(d.compute_size(), Err(LayoutError::OutOfOrder { field: 1, loc: 4, current: 11 }));
    let equal = LayoutDescriptor { fields: vec![at(0, 4), at(1, 4)], max_size: None };
    assert_eq!(equal.compute_size(), Ok(5));
}

#[test]
fn size_ceiling() {
    let fits = LayoutDescriptor { fields: vec![next(4), next(4)], max_size: Some(12) };
    assert_eq!(fits.compute_size(), Ok(12));
    let exact = LayoutDescriptor { fields: vec![next(4), at(4, 8)], max_size: Some(12) };
    assert_eq!(exact.compute_size(), Ok(12));
    let over = LayoutDescriptor { fields: vec![next(8), at(8, 8)], max_size: Some(12) };
    assert_eq!(over.compute_size(), Err(LayoutError::TooLarge { size: 16, max: 12 }));
    let empty = LayoutDescriptor { fields: vec![], max_size: None };
    assert_eq!(empty.compute_size(), Ok(0));
}

#[test]
fn offset_overflow_is_rejected() {
    let d = LayoutDescriptor { fields: vec![at(2, usize::MAX - 1)], max_size: None };
    assert_eq!(d.compute_size(), Err(LayoutError::Overflow));
}

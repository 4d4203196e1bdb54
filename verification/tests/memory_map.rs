use multiboot2::memory::Memory;
use multiboot2::memory_map::{MemoryMap, MemoryMapTag, MemoryMapType};
use multiboot2::{load, try_load};

fn put_u32(bytes: &mut Vec<u8>, value: u32) {
    bytes.extend_from_slice(&value.to_le_bytes());
}

fn put_u64(bytes: &mut Vec<u8>, value: u64) {
    bytes.extend_from_slice(&value.to_le_bytes());
}

fn put_tag(bytes: &mut Vec<u8>, tag_type: u32, payload: &[u8]) {
    put_u32(bytes, tag_type);
    put_u32(bytes, 8 + payload.len() as u32);
    bytes.extend_from_slice(payload);
    while bytes.len() % 8 != 0 {
        bytes.push(0);
    }
}

fn finish(mut bytes: Vec<u8>) -> Vec<u8> {
    put_u32(&mut bytes, 0);
    put_u32(&mut bytes, 8);
    let total = bytes.len() as u32;
    bytes[0..4].copy_from_slice(&total.to_le_bytes());
    bytes
}

fn map_payload(entry_size: u32, version: u32, areas: &[(u64, u64, u32)]) -> Vec<u8> {
    let mut payload = Vec::new();
    put_u32(&mut payload, entry_size);
    put_u32(&mut payload, version);
    for &(base, length, entry_type) in areas {
        let start = payload.len();
        put_u64(&mut payload, base);
        put_u64(&mut payload, length);
        put_u32(&mut payload, entry_type);
        put_u32(&mut payload, 0);
        while payload.len() < start + entry_size as usize {
            payload.push(0xCC);
        }
    }
    payload
}

fn blob_with_map(entry_size: u32, areas: &[(u64, u64, u32)]) -> Vec<u8> {
    let mut bytes = vec![0u8; 8];
    put_tag(&mut bytes, 4, &[0; 8]);
    put_tag(&mut bytes, 6, &map_payload(entry_size, 0, areas));
    finish(bytes)
}

fn free_areas(tag: &MemoryMapTag) -> Vec<MemoryMap> {
    let mut cursor = tag.memory_areas();
    let mut areas = Vec::new();
    while let Some(area) = cursor.next() {
        areas.push(area);
    }
    areas
}

const THREE_AREAS: [(u64, u64, u32); 3] =
    [(0x0, 0x9FC00, 1), (0x9FC00, 0x400, 2), (0x100000, 0x7EE0000, 1)];

#[test]
fn memory_areas_skips_the_reserved_area() {
    let bytes = blob_with_map(24, &THREE_AREAS);
    let info = load(Memory::new(0x5000, &bytes), 0x5000);
    let tag = info.get_mem_map().unwrap();
    assert_eq!(tag.entry_size(), 24);
    let areas = free_areas(&tag);
    assert_eq!(areas.len(), 2);
    assert_eq!(
        areas[0],
        MemoryMap { base_address: 0x0, length: 0x9FC00, entry_type: 1, reserved: 0 }
    );
    assert_eq!(
        areas[1],
        MemoryMap { base_address: 0x100000, length: 0x7EE0000, entry_type: 1, reserved: 0 }
    );
    assert_eq!(areas[0].base_address(), 0x0);
    assert_eq!(areas[0].length(), 0x9FC00);
    assert_eq!(areas[0].end_address(), 0x9FC00);
    assert_eq!(areas[1].base_address(), 0x100000);
    assert_eq!(areas[1].length(), 0x7EE0000);
    assert_eq!(areas[1].end_address(), 0x7FE0000);
}

#[test]
fn memory_areas_starts_anew_with_each_call() {
    let bytes = blob_with_map(24, &THREE_AREAS);
    let info = load(Memory::new(0x5000, &bytes), 0x5000);
    let tag = info.get_mem_map().unwrap();
    let mut cursor = tag.memory_areas();
    assert!(cursor.next().is_some());
    assert!(cursor.next().is_some());
    assert!(cursor.next().is_none());
    assert!(cursor.next().is_none());
    assert_eq!(free_areas(&tag).len(), 2);
    assert_eq!(free_areas(&tag), free_areas(&info.get_mem_map().unwrap()));
}

#[test]
fn memory_areas_hands_out_free_areas_only() {
    let areas = [(0x1000, 0x10, 0), (0x2000, 0x20, 3), (0x3000, 0x30, 4), (0x4000, 0x40, 5)];
    let bytes = blob_with_map(24, &areas);
    let info = load(Memory::new(0, &bytes), 0);
    let tag = info.get_mem_map().unwrap();
    assert!(free_areas(&tag).is_empty());
    let areas = [(0x1000, 0x10, 2), (0x2000, 0x20, 2), (0x3000, 0x30, 1), (0x4000, 0x40, 3)];
    let bytes = blob_with_map(24, &areas);
    let info = load(Memory::new(0, &bytes), 0);
    let found = free_areas(&info.get_mem_map().unwrap());
    assert_eq!(found.len(), 1);
    assert_eq!(found[0].base_address, 0x3000);
    assert!(found.iter().all(|area| area.is_availabe()));
}

#[test]
fn memory_areas_of_an_empty_table() {
    let bytes = blob_with_map(24, &[]);
    let info = load(Memory::new(0, &bytes), 0);
    let tag = info.get_mem_map().unwrap();
    assert!(tag.memory_areas().next().is_none());
}

#[test]
fn memory_areas_walks_by_the_entry_size() {
    let bytes = blob_with_map(40, &THREE_AREAS);
    let info = load(Memory::new(0x700, &bytes), 0x700);
    let tag = info.get_mem_map().unwrap();
    assert_eq!(tag.entry_size(), 40);
    let areas = free_areas(&tag);
    assert_eq!(areas.len(), 2);
    assert_eq!(areas[0].end_address(), 0x9FC00);
    assert_eq!(areas[1].base_address(), 0x100000);
}

#[test]
fn memory_areas_leaves_out_an_area_that_the_tag_cuts_off() {
    let mut bytes = vec![0u8; 8];
    let mut payload = map_payload(24, 0, &[(0x1000, 0x100, 1), (0x2000, 0x200, 1)]);
    payload.truncate(8 + 24 + 23);
    put_tag(&mut bytes, 6, &payload);
    let bytes = finish(bytes);
    let info = load(Memory::new(0, &bytes), 0);
    let areas = free_areas(&info.get_mem_map().unwrap());
    assert_eq!(areas.len(), 1);
    assert_eq!(areas[0].base_address(), 0x1000);
}

#[test]
fn memory_areas_of_a_tag_shorter_than_an_area() {
    let mut bytes = vec![0u8; 8];
    let mut payload = Vec::new();
    put_u32(&mut payload, 24);
    put_u32(&mut payload, 0);
    payload.extend_from_slice(&[1; 4]);
    put_tag(&mut bytes, 6, &payload);
    put_tag(&mut bytes, 1, &[0xFF; 32]);
    let bytes = finish(bytes);
    let info = load(Memory::new(0, &bytes), 0);
    let tag = info.get_mem_map().unwrap();
    assert!(tag.memory_areas().next().is_none());
}

#[test]
fn entry_size_and_version_are_read_from_the_tag() {
    let mut bytes = vec![0u8; 8];
    put_tag(&mut bytes, 6, &map_payload(32, 7, &[(1, 2, 1)]));
    let bytes = finish(bytes);
    let info = try_load(Memory::new(0x10, &bytes), 0x10).unwrap();
    let tag = info.get_mem_map().unwrap();
    assert_eq!(tag.entry_size(), 32);
    assert_eq!(tag.entry_version(), 7);
}

#[test]
fn get_mem_map_takes_the_first_tag_of_type_6() {
    let mut bytes = vec![0u8; 8];
    put_tag(&mut bytes, 6, &map_payload(24, 0, &[(0x1000, 0x10, 1)]));
    put_tag(&mut bytes, 6, &map_payload(24, 0, &[(0x2000, 0x20, 1), (0x3000, 0x30, 1)]));
    let bytes = finish(bytes);
    let info = load(Memory::new(0, &bytes), 0);
    let areas = free_areas(&info.get_mem_map().unwrap());
    assert_eq!(areas.len(), 1);
    assert_eq!(areas[0].base_address(), 0x1000);
}

#[test]
fn any_tag_can_be_read_as_a_memory_map() {
    let mut bytes = vec![0u8; 8];
    put_tag(&mut bytes, 77, &map_payload(24, 1, &[(0xA000, 0xB0, 1)]));
    let bytes = finish(bytes);
    let info = load(Memory::new(0, &bytes), 0);
    assert!(info.get_mem_map().is_none());
    let tag = MemoryMapTag::from_tag(&info.get_tag(77).unwrap());
    let areas = free_areas(&tag);
    assert_eq!(areas.len(), 1);
    assert_eq!(areas[0].end_address(), 0xA0B0);
}

#[test]
fn entry_type_of_each_number() {
    let area = |entry_type| MemoryMap { base_address: 0, length: 0, entry_type, reserved: 0 };
    assert_eq!(area(1).entry_type(), MemoryMapType::Available);
    assert_eq!(area(3).entry_type(), MemoryMapType::AvailableWithACPI);
    assert_eq!(area(0).entry_type(), MemoryMapType::Reserved);
    assert_eq!(area(2).entry_type(), MemoryMapType::Reserved);
    assert_eq!(area(4).entry_type(), MemoryMapType::Reserved);
    assert_eq!(area(5).entry_type(), MemoryMapType::Reserved);
    assert_eq!(area(u32::MAX).entry_type(), MemoryMapType::Reserved);
}

#[test]
fn only_type_1_is_available() {
    let area = |entry_type| MemoryMap { base_address: 0, length: 0, entry_type, reserved: 0 };
    assert!(area(1).is_availabe());
    assert!(!area(0).is_availabe());
    assert!(!area(2).is_availabe());
    assert!(!area(3).is_availabe());
    assert!(!area(4).is_availabe());
}

#[test]
fn area_addresses() {
    let area =
        MemoryMap { base_address: 0x1234_5000, length: 0x0FFF_F000, entry_type: 1, reserved: 9 };
    assert_eq!(area.base_address(), 0x1234_5000);
    assert_eq!(area.length(), 0x0FFF_F000);
    assert_eq!(area.end_address(), 0x2234_4000);
    let empty = MemoryMap { base_address: 0x77, length: 0, entry_type: 2, reserved: 0 };
    assert_eq!(empty.end_address(), 0x77);
    let last = MemoryMap { base_address: u64::MAX - 5, length: 5, entry_type: 1, reserved: 0 };
    assert_eq!(last.end_address(), u64::MAX as usize);
}

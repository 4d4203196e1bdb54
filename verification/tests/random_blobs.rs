use multiboot2::elf_sections::get_elf_sections_tag;
use multiboot2::memory::Memory;
use multiboot2::memory_map::MemoryMapTag;
use multiboot2::{is_valid_info, load, try_load};

/// A small generator of numbers that gives the same run every time.
struct Numbers(u64);

impl Numbers {
    fn next(&mut self) -> u64 {
        self.0 ^= self.0 << 13;
        self.0 ^= self.0 >> 7;
        self.0 ^= self.0 << 17;
        self.0
    }

    fn below(&mut self, bound: u64) -> u64 {
        self.next() % bound
    }
}

fn u32_in(bytes: &[u8], at: usize) -> Option<u32> {
    let field = bytes.get(at..at.checked_add(4)?)?;
    Some(u32::from_le_bytes([field[0], field[1], field[2], field[3]]))
}

fn u64_in(bytes: &[u8], at: usize) -> Option<u64> {
    let low = u32_in(bytes, at)? as u64;
    let high = u32_in(bytes, at + 4)? as u64;
    Some(low | high << 32)
}

/// The tags of the boot information at offset `start`, as (offset, type, size), walked with
/// plain slice reads; `None` where the walk leaves the length that the header gives.
fn plain_walk(bytes: &[u8], start: usize) -> Option<Vec<(usize, u32, u32)>> {
    let total = u32_in(bytes, start)? as usize;
    u32_in(bytes, start + 4)?;
    let end = start.checked_add(total)?;
    if end > bytes.len() {
        return None;
    }
    let mut at = start + 8;
    let mut tags = Vec::new();
    loop {
        if at + 8 > end {
            return None;
        }
        let tag_type = u32_in(bytes, at)?;
        let size = u32_in(bytes, at + 4)?;
        if tag_type == 0 && size == 8 {
            return Some(tags);
        }
        if size < 8 {
            return None;
        }
        tags.push((at, tag_type, size));
        at = at.checked_add((size as usize).checked_add(7)? / 8 * 8)?;
    }
}

fn random_blob(numbers: &mut Numbers) -> Vec<u8> {
    let mut bytes = vec![0u8; 8];
    let tags = numbers.below(6);
    for _ in 0..tags {
        let tag_type = numbers.below(12) as u32;
        let payload = numbers.below(70) as usize;
        bytes.extend_from_slice(&tag_type.to_le_bytes());
        bytes.extend_from_slice(&(8 + payload as u32).to_le_bytes());
        for _ in 0..payload {
            bytes.push(numbers.next() as u8);
        }
        while bytes.len() % 8 != 0 {
            bytes.push(0);
        }
    }
    bytes.extend_from_slice(&0u32.to_le_bytes());
    bytes.extend_from_slice(&8u32.to_le_bytes());
    let total = bytes.len() as u32;
    bytes[0..4].copy_from_slice(&total.to_le_bytes());
    for _ in 0..numbers.below(4) {
        let at = numbers.below(bytes.len() as u64) as usize;
        bytes[at] = match numbers.below(3) {
            0 => 0,
            1 => 8,
            _ => numbers.next() as u8,
        };
    }
    for _ in 0..numbers.below(3) * 8 {
        bytes.push(numbers.next() as u8);
    }
    bytes
}

#[test]
fn validity_agrees_with_a_plain_walk() {
    let mut numbers = Numbers(0x2545_F491_4F6C_DD1D);
    let mut valid = 0;
    let mut invalid = 0;
    for _ in 0..4000 {
        let bytes = random_blob(&mut numbers);
        let base = numbers.below(0x1_0000) as usize;
        let mem = Memory::new(base, &bytes);
        let expected = plain_walk(&bytes, 0);
        assert_eq!(is_valid_info(&mem, base), expected.is_some());
        assert_eq!(try_load(mem, base).is_some(), expected.is_some());
        match expected {
            Some(tags) => {
                valid += 1;
                let info = load(mem, base);
                let mut cursor = info.get_tags();
                let mut seen = Vec::new();
                while let Some(tag) = cursor.next() {
                    seen.push((tag.address() - base, tag.tag_type(), tag.size()));
                }
                assert_eq!(seen, tags);
                assert!(cursor.current_tag() + 8 <= info.end_address());
                for wanted in 0..12u32 {
                    let first = tags.iter().find(|tag| tag.1 == wanted);
                    let found = info.get_tag(wanted);
                    assert_eq!(
                        found.map(|tag| (tag.address() - base, tag.tag_type(), tag.size())),
                        first.copied()
                    );
                }
            },
            None => invalid += 1,
        }
    }
    assert!(valid > 500);
    assert!(invalid > 500);
}

#[test]
fn validity_at_every_offset_of_a_window() {
    let mut numbers = Numbers(0x9E37_79B9_7F4A_7C15);
    for _ in 0..200 {
        let bytes = random_blob(&mut numbers);
        let mem = Memory::new(0x400, &bytes);
        for start in 0..bytes.len() + 2 {
            let expected = plain_walk(&bytes, start).is_some();
            assert_eq!(is_valid_info(&mem, 0x400 + start), expected);
        }
    }
}

#[test]
fn free_areas_agree_with_a_plain_walk() {
    let mut numbers = Numbers(0xD1B5_4A32_D192_ED03);
    let mut walked = 0;
    for _ in 0..3000 {
        let bytes = random_blob(&mut numbers);
        let mem = Memory::new(0x80, &bytes);
        let Some(info) = try_load(mem, 0x80) else {
            continue;
        };
        let mut cursor = info.get_tags();
        while let Some(tag) = cursor.next() {
            let at = tag.address() - 0x80;
            let map = MemoryMapTag::from_tag(&tag);
            let entry_size = u32_in(&bytes, at + 8).unwrap();
            assert_eq!(map.entry_size(), entry_size);
            assert_eq!(map.entry_version(), u32_in(&bytes, at + 12).unwrap());
            if entry_size < 24 {
                continue;
            }
            walked += 1;
            let mut expected = Vec::new();
            let mut area = at + 16;
            while area + entry_size as usize <= at + tag.size() as usize {
                let base = u64_in(&bytes, area).unwrap();
                let length = u64_in(&bytes, area + 8).unwrap();
                let entry_type = u32_in(&bytes, area + 16).unwrap();
                if entry_type == 1 {
                    expected.push((base, length));
                }
                area += entry_size as usize;
            }
            let mut areas = map.memory_areas();
            let mut seen = Vec::new();
            while let Some(area) = areas.next() {
                assert!(area.is_availabe());
                seen.push((area.base_address, area.length));
            }
            assert_eq!(seen, expected);
        }
    }
    assert!(walked > 20);
}

fn random_table(numbers: &mut Numbers) -> Vec<u8> {
    let entry_size: u32 = match numbers.below(8) {
        0 => 40 + numbers.below(30) as u32,
        n if n % 2 == 0 => 40,
        _ => 64,
    };
    let num = numbers.below(7) as u32;
    let shndx = numbers.below(8) as u32;
    let shown = match numbers.below(6) {
        0 => num + 1,
        1 => num.saturating_sub(1),
        _ => num,
    };
    let mut bytes = vec![0u8; 8];
    bytes.extend_from_slice(&9u32.to_le_bytes());
    bytes.extend_from_slice(&(20 + num * entry_size).to_le_bytes());
    bytes.extend_from_slice(&shown.to_le_bytes());
    bytes.extend_from_slice(&entry_size.to_le_bytes());
    bytes.extend_from_slice(&shndx.to_le_bytes());
    for _ in 0..num {
        let start = bytes.len();
        bytes.extend_from_slice(&(numbers.below(20) as u32).to_le_bytes());
        bytes.extend_from_slice(&(numbers.below(3) as u32).to_le_bytes());
        while bytes.len() < start + entry_size as usize {
            bytes.push(numbers.next() as u8);
        }
    }
    while bytes.len() % 8 != 0 {
        bytes.push(0);
    }
    bytes.extend_from_slice(&0u32.to_le_bytes());
    bytes.extend_from_slice(&8u32.to_le_bytes());
    let total = bytes.len() as u32;
    bytes[0..4].copy_from_slice(&total.to_le_bytes());
    bytes
}

#[test]
fn sections_agree_with_a_plain_walk() {
    let mut numbers = Numbers(0x0123_4567_89AB_CDEF);
    let mut walked = 0;
    let mut refused = 0;
    for _ in 0..3000 {
        let bytes = random_table(&mut numbers);
        let mem = Memory::new(0x2000, &bytes);
        let info = load(mem, 0x2000);
        let tag = info.get_tag(9).unwrap();
        let elf = get_elf_sections_tag(&tag);
        let num = u32_in(&bytes, 16).unwrap() as usize;
        let entry_size = u32_in(&bytes, 20).unwrap() as usize;
        let shndx = u32_in(&bytes, 24).unwrap() as usize;
        let fits = 20 + num * entry_size <= tag.size() as usize;
        let expected = (entry_size == 40 || entry_size == 64) && shndx < num && fits;
        assert_eq!(elf.is_well_formed(), expected);
        if !expected {
            refused += 1;
            continue;
        }
        walked += 1;
        let wide = entry_size == 64;
        let mut wanted = Vec::new();
        for index in 1..num {
            let at = 28 + index * entry_size;
            let code = u32_in(&bytes, at + 4).unwrap();
            if code != 0 {
                let (flags, address, size) = if wide {
                    (
                        u64_in(&bytes, at + 8).unwrap(),
                        u64_in(&bytes, at + 16).unwrap(),
                        u64_in(&bytes, at + 32).unwrap(),
                    )
                } else {
                    (
                        u32_in(&bytes, at + 8).unwrap() as u64,
                        u32_in(&bytes, at + 12).unwrap() as u64,
                        u32_in(&bytes, at + 20).unwrap() as u64,
                    )
                };
                wanted.push((code, flags & 7, address, size));
            }
        }
        let names_at = 28 + shndx * entry_size + if wide { 16 } else { 12 };
        let names = if wide {
            u64_in(&bytes, names_at).unwrap()
        } else {
            u32_in(&bytes, names_at).unwrap() as u64
        };
        let mut cursor = elf.get_sections();
        let mut seen = Vec::new();
        while let Some(section) = cursor.next() {
            assert_eq!(section.get_string_table(), names);
            seen.push((
                section.get_section_type(),
                section.get_flags().bits(),
                section.get_start_addr(),
                section.get_size(),
            ));
        }
        assert_eq!(seen, wanted);
    }
    assert!(walked > 300);
    assert!(refused > 300);
}

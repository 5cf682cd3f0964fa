use dbgrs::error::DebugError;
use dbgrs::memory::{
    read_memory_array, read_memory_data, read_memory_full_array, read_memory_string,
    read_memory_string_indirect, u16_at, u32_at, u64_at, MemorySource, MemoryView,
};
use dbgrs::reader::{contiguous_prefix, GapReader};
use dbgrs::snapshot::MemorySnapshot;

fn snapshot() -> MemorySnapshot {
    let mut s = MemorySnapshot::new();
    s.add_region(0x1000, vec![0x11, 0x22, 0x33, 0x44, 0x55, 0x66, 0x77, 0x88, 0x99, 0xaa]);
    s.add_region(0x2000, b"hello\0world".to_vec());
    s.add_region(0x3000, vec![b'h', 0, b'i', 0, 0, 0, b'x', 0]);
    s.add_region(0x4000, 0x2000u64.to_le_bytes().to_vec());
    s.add_region(0xffff_ffff_ffff_fffe, vec![1, 2]);
    s
}

#[test]
fn little_endian_values() {
    let b: Vec<u8> = vec![0x01, 0x02, 0x03, 0x04, 0x05, 0x06, 0x07, 0x08, 0x09];
    assert_eq!(u16_at(&b, 0), 0x0201);
    assert_eq!(u16_at(&b, 7), 0x0908);
    assert_eq!(u32_at(&b, 1), 0x0504_0302);
    assert_eq!(u64_at(&b, 0), 0x0807_0605_0403_0201);
    assert_eq!(u64_at(&b, 1), 0x0908_0706_0504_0302);
    let m: Vec<u8> = vec![0xff; 8];
    assert_eq!(u64_at(&m, 0), u64::MAX);
    assert_eq!(u32_at(&m, 4), u32::MAX);
}

#[test]
fn snapshot_reads_bytes_and_gaps() {
    let s = snapshot();
    assert_eq!(s.byte_at(0x1000), Some(0x11));
    assert_eq!(s.byte_at(0x1009), Some(0xaa));
    assert_eq!(s.byte_at(0x100a), None);
    assert_eq!(s.byte_at(0xfff), None);
    assert_eq!(
        s.read_memory(0xffe, 5),
        vec![None, None, Some(0x11), Some(0x22), Some(0x33)]
    );
    assert_eq!(s.read_memory(0x1008, 4), vec![Some(0x99), Some(0xaa), None, None]);
    assert_eq!(s.read_memory(0x1000, 0), vec![]);
}

#[test]
fn snapshot_reads_at_the_top_of_the_address_space() {
    let s = snapshot();
    assert_eq!(s.read_memory(0xffff_ffff_ffff_fffe, 4), vec![Some(1), Some(2), None, None]);
    assert_eq!(s.read_raw_memory(0xffff_ffff_ffff_fffe, 4), vec![1, 2]);
}

#[test]
fn raw_read_stops_at_the_first_gap() {
    let s = snapshot();
    assert_eq!(s.read_raw_memory(0x1000, 4), vec![0x11, 0x22, 0x33, 0x44]);
    assert_eq!(s.read_raw_memory(0x1008, 16), vec![0x99, 0xaa]);
    assert_eq!(s.read_raw_memory(0xfff, 16), Vec::<u8>::new());
    assert_eq!(s.read_raw_memory(0x1000, 0), Vec::<u8>::new());
}

#[test]
fn first_region_wins_where_regions_overlap() {
    let mut s = MemorySnapshot::new();
    s.add_region(0x10, vec![1, 1, 1]);
    s.add_region(0x11, vec![2, 2, 2]);
    assert_eq!(s.read_raw_memory(0x10, 8), vec![1, 1, 1, 2]);
}

#[test]
fn arrays_are_cut_at_whole_elements() {
    let s = snapshot();
    assert_eq!(
        read_memory_array::<u16, _>(&s, 0x1000, 3),
        Ok(vec![0x2211, 0x4433, 0x6655])
    );
    assert_eq!(
        read_memory_array::<u32, _>(&s, 0x1000, 8),
        Ok(vec![0x4433_2211, 0x8877_6655])
    );
    assert_eq!(read_memory_array::<u64, _>(&s, 0x1004, 1), Ok(vec![]));
    assert_eq!(read_memory_array::<u8, _>(&s, 0x5000, 4), Ok(vec![]));
}

#[test]
fn full_arrays_need_the_whole_range() {
    let s = snapshot();
    assert_eq!(
        read_memory_full_array::<u16, _>(&s, 0x1000, 5),
        Ok(vec![0x2211, 0x4433, 0x6655, 0x8877, 0xaa99])
    );
    assert_eq!(read_memory_full_array::<u16, _>(&s, 0x1000, 6), Err(DebugError::ReadFailed));
    assert_eq!(read_memory_full_array::<u32, _>(&s, 0x1000, 0), Ok(vec![]));
    assert_eq!(read_memory_full_array::<u8, _>(&s, 0x5000, 1), Err(DebugError::ReadFailed));
}

#[test]
fn too_many_elements_are_refused() {
    let s = snapshot();
    assert_eq!(
        read_memory_array::<u64, _>(&s, 0x1000, usize::MAX),
        Err(DebugError::ReadTooLarge)
    );
    assert_eq!(
        read_memory_full_array::<u16, _>(&s, 0x1000, usize::MAX),
        Err(DebugError::ReadTooLarge)
    );
    assert_eq!(
        read_memory_string(&s, 0x3000, usize::MAX, true),
        Err(DebugError::ReadTooLarge)
    );
}

#[test]
fn single_values() {
    let s = snapshot();
    assert_eq!(read_memory_data::<u64, _>(&s, 0x1000), Ok(0x8877_6655_4433_2211));
    assert_eq!(read_memory_data::<u64, _>(&s, 0x1002), Ok(0xaa99_8877_6655_4433));
    assert_eq!(read_memory_data::<u64, _>(&s, 0x1003), Err(DebugError::ReadFailed));
    assert_eq!(read_memory_data::<u8, _>(&s, 0x1009), Ok(0xaa));
    assert_eq!(read_memory_data::<u8, _>(&s, 0x100a), Err(DebugError::ReadFailed));
    assert_eq!(read_memory_data::<u32, _>(&s, 0x0), Err(DebugError::ReadFailed));
}

#[test]
fn narrow_strings_end_at_nul_or_at_the_limit_or_at_a_gap() {
    let s = snapshot();
    assert_eq!(read_memory_string(&s, 0x2000, 64, false), Ok("hello".to_string()));
    assert_eq!(read_memory_string(&s, 0x2000, 3, false), Ok("hel".to_string()));
    assert_eq!(read_memory_string(&s, 0x2006, 64, false), Ok("world".to_string()));
    assert_eq!(read_memory_string(&s, 0x2005, 64, false), Ok("".to_string()));
    assert_eq!(read_memory_string(&s, 0x7000, 64, false), Ok("".to_string()));
    assert_eq!(read_memory_string(&s, 0x2000, 0, false), Ok("".to_string()));
}

#[test]
fn narrow_strings_take_each_byte_as_one_character() {
    let mut s = MemorySnapshot::new();
    s.add_region(0x10, vec![b'a', 0xe9, 0xff, b'z', 0]);
    assert_eq!(read_memory_string(&s, 0x10, 16, false), Ok("a\u{e9}\u{ff}z".to_string()));
}

#[test]
fn wide_strings_are_sixteen_bit_units() {
    let s = snapshot();
    assert_eq!(read_memory_string(&s, 0x3000, 16, true), Ok("hi".to_string()));
    assert_eq!(read_memory_string(&s, 0x3000, 1, true), Ok("h".to_string()));
    assert_eq!(read_memory_string(&s, 0x3006, 16, true), Ok("x".to_string()));
    let mut t = MemorySnapshot::new();
    // An unpaired surrogate becomes U+FFFD; a pair becomes one character.
    t.add_region(0, vec![0x00, 0xd8, 0x41, 0x00, 0x3d, 0xd8, 0x00, 0xde, 0, 0]);
    assert_eq!(read_memory_string(&t, 0, 16, true), Ok("\u{fffd}A\u{1f600}".to_string()));
}

#[test]
fn strings_through_a_pointer() {
    let s = snapshot();
    assert_eq!(read_memory_string_indirect(&s, 0x4000, 64, false), Ok("hello".to_string()));
    assert_eq!(
        read_memory_string_indirect(&s, 0x4001, 64, false),
        Err(DebugError::ReadFailed)
    );
    assert_eq!(
        read_memory_string_indirect(&s, 0x9000, 64, true),
        Err(DebugError::ReadFailed)
    );
}

#[test]
fn sources_work_through_a_trait_object() {
    let s = snapshot();
    let source: &dyn MemorySource = &s;
    assert_eq!(read_memory_data::<u16, dyn MemorySource>(source, 0x1000), Ok(0x2211));
    assert_eq!(read_memory_string(source, 0x2000, 64, false), Ok("hello".to_string()));
}

fn drive(address: u64, len: usize, target: &MemorySnapshot) -> (Vec<Option<u8>>, usize) {
    // The target gives whole ranges or refuses, as an operating system does.
    let mut reader = GapReader::new(address, len);
    let mut requests = 0;
    while let Some((at, count)) = reader.next_request() {
        requests += 1;
        let got = target.read_raw_memory(at, count);
        if got.len() == count {
            reader.complete(&got);
        } else {
            reader.complete(&[]);
        }
    }
    (reader.finish(), requests)
}

#[test]
fn gap_reader_goes_on_past_gaps() {
    let s = snapshot();
    let (data, requests) = drive(0xffe, 14, &s);
    assert_eq!(data, s.read_memory(0xffe, 14));
    assert_eq!(data[0], None);
    assert_eq!(data[2], Some(0x11));
    assert_eq!(data[12], None);
    // A refusal of more than one byte halves the request, so the count stays small.
    assert!(requests <= 14 * 5);
    let (whole, one) = drive(0x1000, 10, &s);
    assert_eq!(whole, s.read_memory(0x1000, 10));
    assert_eq!(one, 1);
}

#[test]
fn gap_reader_with_nothing_to_read() {
    let mut reader = GapReader::new(0x1000, 0);
    assert_eq!(reader.next_request(), None);
    assert_eq!(reader.finish(), vec![]);
    reader = GapReader::new(u64::MAX, 3);
    assert_eq!(reader.next_request(), Some((u64::MAX, 3)));
    reader.complete(&[7]);
    // What is left lies outside the address space.
    assert_eq!(reader.next_request(), None);
    assert_eq!(reader.finish(), vec![Some(7), None, None]);
}

#[test]
fn gap_reader_ignores_bytes_beyond_the_range() {
    let mut reader = GapReader::new(0x10, 2);
    assert_eq!(reader.next_request(), Some((0x10, 2)));
    reader.complete(&[1, 2, 3, 4]);
    assert_eq!(reader.next_request(), None);
    assert_eq!(reader.finish(), vec![Some(1), Some(2)]);
}

#[test]
fn prefix_before_the_first_gap() {
    assert_eq!(contiguous_prefix(&vec![Some(1), Some(2), None, Some(3)]), vec![1, 2]);
    assert_eq!(contiguous_prefix(&vec![None, Some(3)]), Vec::<u8>::new());
    assert_eq!(contiguous_prefix(&vec![Some(9)]), vec![9]);
    assert_eq!(contiguous_prefix(&vec![]), Vec::<u8>::new());
    let s = snapshot();
    assert_eq!(contiguous_prefix(&s.read_memory(0x1006, 8)), s.read_raw_memory(0x1006, 8));
}

/// A source that holds the bytes 0, 1, 2, ... at the even addresses below 0x20.
struct Comb;

impl MemorySource for Comb {
    fn view(&self) -> MemoryView {
        unreachable!()
    }

    fn read_memory(&self, address: u64, len: usize) -> Vec<Option<u8>> {
        (0..len as u64)
            .map(|i| address.checked_add(i))
            .map(|a| match a {
                Some(a) if a < 0x20 && a % 2 == 0 => Some((a / 2) as u8),
                _ => None,
            })
            .collect()
    }

    fn read_raw_memory(&self, address: u64, len: usize) -> Vec<u8> {
        contiguous_prefix(&self.read_memory(address, len))
    }
}

#[test]
fn readers_work_on_any_source() {
    assert_eq!(read_memory_array::<u8, _>(&Comb, 0x4, 8), Ok(vec![2]));
    assert_eq!(read_memory_data::<u8, _>(&Comb, 0x1e), Ok(15));
    assert_eq!(read_memory_data::<u16, _>(&Comb, 0x1e), Err(DebugError::ReadFailed));
    assert_eq!(read_memory_string(&Comb, 0x6, 8, false), Ok("\u{3}".to_string()));
    let mut reader = GapReader::new(0x1c, 6);
    while let Some((at, count)) = reader.next_request() {
        let got = Comb.read_raw_memory(at, count);
        if got.len() == count {
            reader.complete(&got);
        } else {
            reader.complete(&[]);
        }
    }
    assert_eq!(reader.finish(), vec![Some(14), None, Some(15), None, None, None]);
}

use bootloader::memory_map::{
    memory_map_from_reply, MapKey, MemoryDescriptor, MemoryMapError, PhysicalAddress,
    VirtualAddress, DESCRIPTOR_SIZE,
};

fn sample(n: u64) -> MemoryDescriptor {
    MemoryDescriptor {
        typ: 7 + n as u32,
        physical_start: PhysicalAddress(0x1000 * (n + 1)),
        virtual_start: VirtualAddress(0xffff_8000_0000_0000 + n),
        number_of_pages: 16 * n + 3,
        attribute: 0x8000_0000_0000_000f ^ n,
    }
}

fn synthetic_map(ds: &[MemoryDescriptor], stride: usize, pad: u8) -> Vec<u8> {
    let mut buf = vec![pad; ds.len() * stride];
    for (k, d) in ds.iter().enumerate() {
        let off = k * stride;
        buf[off..off + 4].copy_from_slice(&d.typ.to_le_bytes());
        buf[off + 8..off + 16].copy_from_slice(&d.physical_start.0.to_le_bytes());
        buf[off + 16..off + 24].copy_from_slice(&d.virtual_start.0.to_le_bytes());
        buf[off + 24..off + 32].copy_from_slice(&d.number_of_pages.to_le_bytes());
        buf[off + 32..off + 40].copy_from_slice(&d.attribute.to_le_bytes());
    }
    buf
}

fn walk(buf: &[u8], stride: usize) -> Vec<MemoryDescriptor> {
    let (key, mut iter) = memory_map_from_reply(buf, 0, buf.len(), 42, stride).unwrap();
    assert_eq!(key, MapKey(42));
    let mut out = Vec::new();
    while let Some(d) = iter.next() {
        out.push(d);
    }
    assert_eq!(iter.next(), None);
    assert_eq!(iter.next(), None);
    out
}

#[test]
fn iterator_yields_every_record_in_order() {
    let ds: Vec<MemoryDescriptor> = (0..5).map(sample).collect();
    let buf = synthetic_map(&ds, DESCRIPTOR_SIZE, 0);
    assert_eq!(walk(&buf, DESCRIPTOR_SIZE), ds);
}

#[test]
fn wider_stride_with_padding_reads_the_same_records() {
    let ds: Vec<MemoryDescriptor> = (0..4).map(sample).collect();
    let narrow = synthetic_map(&ds, 40, 0);
    let wide = synthetic_map(&ds, 48, 0xaa);
    assert_eq!(walk(&narrow, 40), ds);
    assert_eq!(walk(&wide, 48), ds);
}

#[test]
fn map_size_not_a_multiple_of_stride_rounds_down() {
    let ds: Vec<MemoryDescriptor> = (0..3).map(sample).collect();
    let buf = synthetic_map(&ds, 48, 0x55);
    let (_, mut iter) = memory_map_from_reply(&buf, 0, 48 * 2 + 47, 1, 48).unwrap();
    assert_eq!(iter.next(), Some(ds[0]));
    assert_eq!(iter.next(), Some(ds[1]));
    assert_eq!(iter.next(), None);
}

#[test]
fn empty_map_yields_nothing() {
    let buf: Vec<u8> = Vec::new();
    let (_, mut iter) = memory_map_from_reply(&buf, 0, 0, 9, 48).unwrap();
    assert_eq!(iter.next(), None);
}

#[test]
fn empty_buffer_reports_required_size() {
    let buf: Vec<u8> = Vec::new();
    let r = memory_map_from_reply(&buf, 0x8000_0000_0000_0005, 4800, 0, 48);
    assert!(matches!(r, Err(MemoryMapError::BufferTooSmall(4800))));
}

#[test]
fn reported_size_beyond_buffer_is_too_small() {
    let buf = vec![0u8; 100];
    let r = memory_map_from_reply(&buf, 0, 101, 0, 48);
    assert!(matches!(r, Err(MemoryMapError::BufferTooSmall(101))));
}

#[test]
fn failing_status_is_too_small_with_reported_size() {
    let buf = vec![0u8; 4096];
    let r = memory_map_from_reply(&buf, 5, 6000, 0, 48);
    assert!(matches!(r, Err(MemoryMapError::BufferTooSmall(6000))));
}

#[test]
fn stride_shorter_than_record_is_refused() {
    let buf = vec![0u8; 4096];
    let r = memory_map_from_reply(&buf, 0, 4096, 0, 39);
    assert!(matches!(r, Err(MemoryMapError::DescriptorTooSmall(39))));
    let r = memory_map_from_reply(&buf, 0, 4096, 0, 0);
    assert!(matches!(r, Err(MemoryMapError::DescriptorTooSmall(0))));
}

#[test]
fn fields_are_little_endian() {
    let mut buf = vec![0u8; 40];
    buf[0] = 0x07;
    buf[1] = 0x01;
    buf[8] = 0x00;
    buf[9] = 0x10;
    buf[15] = 0x80;
    buf[24] = 0x02;
    buf[39] = 0x01;
    let (_, mut iter) = memory_map_from_reply(&buf, 0, 40, 0, 40).unwrap();
    let d = iter.next().unwrap();
    assert_eq!(d.typ, 0x0107);
    assert_eq!(d.physical_start, PhysicalAddress(0x8000_0000_0000_1000));
    assert_eq!(d.virtual_start, VirtualAddress(0));
    assert_eq!(d.number_of_pages, 2);
    assert_eq!(d.attribute, 0x0100_0000_0000_0000);
}

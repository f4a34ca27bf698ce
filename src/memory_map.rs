//! The firmware's memory map: one record per physical memory region, laid
//! out at a stride that the firmware chooses, decoded lazily from the
//! caller's buffer.
use vstd::prelude::*;
use vstd::bytes::{
    lemma_auto_spec_u32_to_from_le_bytes, lemma_auto_spec_u64_to_from_le_bytes,
    spec_u32_from_le_bytes, spec_u32_to_le_bytes, spec_u64_from_le_bytes, spec_u64_to_le_bytes,
    u32_from_le_bytes, u64_from_le_bytes,
};
use vstd::slice::slice_subrange;

verus! {

/// Bytes of the fields read at the front of each record. The firmware's
/// stride may be larger.
pub const DESCRIPTOR_SIZE: usize = 40;

/// Identifies one generation of the memory map.
#[derive(Clone, Copy, Debug, PartialEq, Eq, Structural)]
pub struct MapKey(pub usize);

#[derive(Clone, Copy, Debug, PartialEq, Eq, Structural)]
pub struct PhysicalAddress(pub u64);

#[derive(Clone, Copy, Debug, PartialEq, Eq, Structural)]
pub struct VirtualAddress(pub u64);

/// One physical memory region.
#[derive(Clone, Copy, Debug, PartialEq, Eq, Structural)]
pub struct MemoryDescriptor {
    pub typ: u32,
    pub physical_start: PhysicalAddress,
    pub virtual_start: VirtualAddress,
    pub number_of_pages: u64,
    pub attribute: u64,
}

/// The record that starts at byte `off` of `buf`: the type tag at offset 0,
/// four bytes of padding, then four little-endian 64-bit fields.
pub open spec fn descriptor_at(buf: Seq<u8>, off: int) -> MemoryDescriptor {
    MemoryDescriptor {
        typ: spec_u32_from_le_bytes(buf.subrange(off, off + 4)),
        physical_start: PhysicalAddress(spec_u64_from_le_bytes(buf.subrange(off + 8, off + 16))),
        virtual_start: VirtualAddress(spec_u64_from_le_bytes(buf.subrange(off + 16, off + 24))),
        number_of_pages: spec_u64_from_le_bytes(buf.subrange(off + 24, off + 32)),
        attribute: spec_u64_from_le_bytes(buf.subrange(off + 32, off + 40)),
    }
}

/// The records `from`, `from + 1`, ..., `count - 1` of `buf` at the given stride.
pub open spec fn descriptors_from(buf: Seq<u8>, stride: int, from: int, count: int) -> Seq<
    MemoryDescriptor,
> {
    Seq::new((count - from) as nat, |k: int| descriptor_at(buf, (from + k) * stride))
}

/// The first `count` records of `buf` at the given stride.
pub open spec fn descriptors(buf: Seq<u8>, stride: int, count: int) -> Seq<MemoryDescriptor> {
    descriptors_from(buf, stride, 0, count)
}

/// Decodes the record that starts at byte `off`.
fn decode_descriptor(buf: &[u8], off: usize) -> (d: MemoryDescriptor)
    requires
        off + DESCRIPTOR_SIZE <= buf.len(),
    ensures
        d == descriptor_at(buf@, off as int),
{
    let typ = u32_from_le_bytes(slice_subrange(buf, off, off + 4));
    let physical_start = u64_from_le_bytes(slice_subrange(buf, off + 8, off + 16));
    let virtual_start = u64_from_le_bytes(slice_subrange(buf, off + 16, off + 24));
    let number_of_pages = u64_from_le_bytes(slice_subrange(buf, off + 24, off + 32));
    let attribute = u64_from_le_bytes(slice_subrange(buf, off + 32, off + 40));
    MemoryDescriptor {
        typ,
        physical_start: PhysicalAddress(physical_start),
        virtual_start: VirtualAddress(virtual_start),
        number_of_pages,
        attribute,
    }
}

/// A forward-only walk over the records of a memory map.
pub struct MemoryMapIter<'a> {
    buf: &'a [u8],
    /// Stride between records, in bytes, as the firmware reported it.
    desc_size: usize,
    index: usize,
    len: usize,
}

impl<'a> MemoryMapIter<'a> {
    #[verifier::type_invariant]
    spec fn inv(self) -> bool {
        &&& DESCRIPTOR_SIZE <= self.desc_size
        &&& self.index <= self.len
        &&& self.len * self.desc_size <= self.buf.len()
    }

    /// The records not yet handed out, in buffer order.
    pub closed spec fn remaining(self) -> Seq<MemoryDescriptor> {
        descriptors_from(self.buf@, self.desc_size as int, self.index as int, self.len as int)
    }

    /// Hands out the next record, or `None` once all have been handed out.
    pub fn next(&mut self) -> (r: Option<MemoryDescriptor>)
        ensures
            old(self).remaining().len() == 0 ==> r is None && final(self).remaining() == old(
                self,
            ).remaining(),
            old(self).remaining().len() > 0 ==> r == Some(old(self).remaining()[0])
                && final(self).remaining() == old(self).remaining().drop_first(),
    {
        proof {
            use_type_invariant(&*self);
        }
        if self.index == self.len {
            return None;
        }
        let ghost before = self.remaining();
        assert((self.index + 1) * self.desc_size <= self.len * self.desc_size) by (nonlinear_arith)
            requires
                self.index < self.len,
        ;
        assert((self.index + 1) * self.desc_size == self.index * self.desc_size + self.desc_size)
            by (nonlinear_arith);
        let desc = decode_descriptor(self.buf, self.index * self.desc_size);
        self.index = self.index + 1;
        assert(self.remaining() =~= before.drop_first());
        Some(desc)
    }
}

/// Why a memory-map query gave no map.
#[derive(Clone, Copy, Debug, PartialEq, Eq, Structural)]
pub enum MemoryMapError {
    /// The buffer cannot hold the map; carries the size the firmware asked for.
    BufferTooSmall(usize),
    /// The firmware reported a record stride shorter than a record.
    DescriptorTooSmall(usize),
}

/// The error of a memory-map query, if any, given the buffer's length and the
/// firmware's status, map size and record stride.
pub open spec fn memory_map_error(buf_len: nat, status: usize, map_size: usize, desc_size: usize) -> Option<
    MemoryMapError,
> {
    if status != 0 || map_size > buf_len {
        Some(MemoryMapError::BufferTooSmall(map_size))
    } else if desc_size < DESCRIPTOR_SIZE {
        Some(MemoryMapError::DescriptorTooSmall(desc_size))
    } else {
        None
    }
}

/// Turns the firmware's answer to a memory-map query into the map key and a
/// walk over the records that it wrote into `buf`.
pub fn memory_map_from_reply<'a>(
    buf: &'a [u8],
    status: usize,
    map_size: usize,
    map_key: usize,
    desc_size: usize,
) -> (r: Result<(MapKey, MemoryMapIter<'a>), MemoryMapError>)
    ensures
        r is Ok <==> memory_map_error(buf@.len(), status, map_size, desc_size) is None,
        r matches Err(e) ==> memory_map_error(buf@.len(), status, map_size, desc_size) == Some(e),
        r matches Ok((key, iter)) ==> key == MapKey(map_key) && iter.remaining() == descriptors(
            buf@,
            desc_size as int,
            (map_size / desc_size) as int,
        ),
{
    if status != 0 || map_size > buf.len() {
        Err(MemoryMapError::BufferTooSmall(map_size))
    } else if desc_size < DESCRIPTOR_SIZE {
        Err(MemoryMapError::DescriptorTooSmall(desc_size))
    } else {
        let len = map_size / desc_size;
        assert(len * desc_size <= map_size) by (nonlinear_arith)
            requires
                len == map_size / desc_size,
                desc_size > 0,
        ;
        let iter = MemoryMapIter { buf, desc_size, index: 0, len };
        assert(iter.remaining() =~= descriptors(buf@, desc_size as int, len as int));
        Ok((MapKey(map_key), iter))
    }
}

/// True when the record at byte `off` of `buf` holds the fields of `d`; the
/// padding after the type tag may hold anything.
pub open spec fn holds_descriptor(buf: Seq<u8>, off: int, d: MemoryDescriptor) -> bool {
    &&& buf.subrange(off, off + 4) == spec_u32_to_le_bytes(d.typ)
    &&& buf.subrange(off + 8, off + 16) == spec_u64_to_le_bytes(d.physical_start.0)
    &&& buf.subrange(off + 16, off + 24) == spec_u64_to_le_bytes(d.virtual_start.0)
    &&& buf.subrange(off + 24, off + 32) == spec_u64_to_le_bytes(d.number_of_pages)
    &&& buf.subrange(off + 32, off + 40) == spec_u64_to_le_bytes(d.attribute)
}

/// True when `buf` holds the records `ds`, one every `stride` bytes from the
/// start; the bytes between records may hold anything.
pub open spec fn holds_descriptors(buf: Seq<u8>, ds: Seq<MemoryDescriptor>, stride: int) -> bool {
    &&& ds.len() * stride <= buf.len()
    &&& forall|k: int| 0 <= k < ds.len() ==> holds_descriptor(buf, k * stride, #[trigger] ds[k])
}

/// A buffer that holds the records `ds` at a stride of `stride` bytes reads
/// back as exactly `ds`: a successful query that reports `ds.len() * stride`
/// bytes walks `ds.len()` records, in buffer order, with the fields written.
pub proof fn lemma_map_reads_back(buf: Seq<u8>, ds: Seq<MemoryDescriptor>, stride: usize)
    requires
        DESCRIPTOR_SIZE <= stride,
        ds.len() * stride <= usize::MAX,
        holds_descriptors(buf, ds, stride as int),
    ensures
        memory_map_error(buf.len(), 0, (ds.len() * stride) as usize, stride) is None,
        descriptors(buf, stride as int, ((ds.len() * stride) as usize / stride) as int) == ds,
{
    let n = ds.len();
    assert((n * stride) / (stride as int) == n) by (nonlinear_arith)
        requires
            stride > 0,
    ;
    lemma_auto_spec_u32_to_from_le_bytes();
    lemma_auto_spec_u64_to_from_le_bytes();
    assert forall|k: int| 0 <= k < n implies descriptor_at(buf, k * stride) == ds[k] by {
        let off = k * stride;
        let d = ds[k];
        assert(holds_descriptor(buf, off, d));
        assert(spec_u32_to_le_bytes(d.typ).len() == 4);
        assert(spec_u32_from_le_bytes(spec_u32_to_le_bytes(d.typ)) == d.typ);
        assert(spec_u64_from_le_bytes(spec_u64_to_le_bytes(d.physical_start.0)) == d.physical_start.0);
        assert(spec_u64_from_le_bytes(spec_u64_to_le_bytes(d.virtual_start.0)) == d.virtual_start.0);
        assert(spec_u64_from_le_bytes(spec_u64_to_le_bytes(d.number_of_pages)) == d.number_of_pages);
        assert(spec_u64_from_le_bytes(spec_u64_to_le_bytes(d.attribute)) == d.attribute);
    }
    assert(descriptors(buf, stride as int, n as int) =~= ds);
}

/// The stride does not change what is read: two buffers that hold the same
/// records at different strides walk the same records.
pub proof fn lemma_stride_does_not_change_records(
    buf1: Seq<u8>,
    stride1: usize,
    buf2: Seq<u8>,
    stride2: usize,
    ds: Seq<MemoryDescriptor>,
)
    requires
        DESCRIPTOR_SIZE <= stride1,
        DESCRIPTOR_SIZE <= stride2,
        ds.len() * stride1 <= usize::MAX,
        ds.len() * stride2 <= usize::MAX,
        holds_descriptors(buf1, ds, stride1 as int),
        holds_descriptors(buf2, ds, stride2 as int),
    ensures
        descriptors(buf1, stride1 as int, ((ds.len() * stride1) as usize / stride1) as int)
            == descriptors(buf2, stride2 as int, ((ds.len() * stride2) as usize / stride2) as int),
{
    lemma_map_reads_back(buf1, ds, stride1);
    lemma_map_reads_back(buf2, ds, stride2);
}

/// With an empty buffer, a query for which the firmware reports a nonzero
/// map size ends in the buffer-too-small error carrying that size.
pub proof fn lemma_empty_buffer_reports_required_size(
    status: usize,
    map_size: usize,
    desc_size: usize,
)
    requires
        map_size > 0,
    ensures
        memory_map_error(0, status, map_size, desc_size) == Some(
            MemoryMapError::BufferTooSmall(map_size),
        ),
{
}

} // verus!

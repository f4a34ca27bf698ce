//! Protocol descriptors: the 128-bit identifiers under which the firmware
//! installs its services.
use vstd::prelude::*;

verus! {

/// A 128-bit identifier split into the firmware's four sub-fields.
#[derive(Clone, Copy, Debug, PartialEq, Eq)]
pub struct Guid {
    pub data1: u32,
    pub data2: u16,
    pub data3: u16,
    pub data4: [u8; 8],
}

/// The 16 bytes of `g` in the firmware's layout: `data1`, `data2` and
/// `data3` little-endian, then the bytes of `data4` in order.
pub open spec fn guid_bytes(g: Guid) -> Seq<u8> {
    seq![
        (g.data1 % 0x100) as u8,
        (g.data1 / 0x100 % 0x100) as u8,
        (g.data1 / 0x10000 % 0x100) as u8,
        (g.data1 / 0x1000000) as u8,
        (g.data2 % 0x100) as u8,
        (g.data2 / 0x100) as u8,
        (g.data3 % 0x100) as u8,
        (g.data3 / 0x100) as u8,
    ] + g.data4@
}

impl Guid {
    /// The identifier as the firmware reads it from memory.
    pub fn to_bytes(&self) -> (r: [u8; 16])
        ensures
            r@ == guid_bytes(*self),
    {
        let d = self.data4;
        let r: [u8; 16] = [
            (self.data1 % 0x100) as u8,
            (self.data1 / 0x100 % 0x100) as u8,
            (self.data1 / 0x10000 % 0x100) as u8,
            (self.data1 / 0x1000000) as u8,
            (self.data2 % 0x100) as u8,
            (self.data2 / 0x100) as u8,
            (self.data3 % 0x100) as u8,
            (self.data3 / 0x100) as u8,
            d[0],
            d[1],
            d[2],
            d[3],
            d[4],
            d[5],
            d[6],
            d[7],
        ];
        assert(r@ =~= guid_bytes(*self));
        r
    }
}

/// A service interface that the firmware installs under its own identifier.
pub trait Protocol {
    /// The identifier that the firmware knows this interface by.
    fn guid() -> Guid;
}

/// The published byte sequence of the simple file system protocol's
/// identifier, 964e5b22-6459-11d2-8e39-00a0c969723b.
pub open spec fn simple_file_system_guid_bytes() -> Seq<u8> {
    seq![
        0x22u8, 0x5b, 0x4e, 0x96, 0x59, 0x64, 0xd2, 0x11,
        0x8e, 0x39, 0x00, 0xa0, 0xc9, 0x69, 0x72, 0x3b,
    ]
}

/// The identifier of the simple file system protocol.
pub fn simple_file_system_guid() -> (g: Guid)
    ensures
        g.data1 == 0x964e5b22,
        g.data2 == 0x6459,
        g.data3 == 0x11d2,
        g.data4@ == seq![0x8eu8, 0x39, 0x00, 0xa0, 0xc9, 0x69, 0x72, 0x3b],
        guid_bytes(g) == simple_file_system_guid_bytes(),
{
    let g = Guid {
        data1: 0x964e5b22,
        data2: 0x6459,
        data3: 0x11d2,
        data4: [0x8e, 0x39, 0x00, 0xa0, 0xc9, 0x69, 0x72, 0x3b],
    };
    assert(g.data4@ =~= seq![0x8eu8, 0x39, 0x00, 0xa0, 0xc9, 0x69, 0x72, 0x3b]);
    assert(guid_bytes(g) =~= simple_file_system_guid_bytes());
    g
}

} // verus!

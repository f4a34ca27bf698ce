use bootloader::file::{encode_file_name, OpenMode, FILE_NAME_CAPACITY};
use bootloader::guid::{simple_file_system_guid, Guid};

#[test]
fn simple_file_system_guid_has_published_bytes() {
    let g = simple_file_system_guid();
    assert_eq!(g.data1, 0x964e5b22);
    assert_eq!(g.data2, 0x6459);
    assert_eq!(g.data3, 0x11d2);
    assert_eq!(g.data4, [0x8e, 0x39, 0x00, 0xa0, 0xc9, 0x69, 0x72, 0x3b]);
    assert_eq!(
        g.to_bytes(),
        [
            0x22, 0x5b, 0x4e, 0x96, 0x59, 0x64, 0xd2, 0x11, 0x8e, 0x39, 0x00, 0xa0, 0xc9, 0x69,
            0x72, 0x3b
        ]
    );
}

#[test]
fn guid_bytes_put_integer_fields_little_endian() {
    let g = Guid {
        data1: 0x0102_0304,
        data2: 0x0506,
        data3: 0x0708,
        data4: [9, 10, 11, 12, 13, 14, 15, 16],
    };
    assert_eq!(g.to_bytes(), [4, 3, 2, 1, 6, 5, 8, 7, 9, 10, 11, 12, 13, 14, 15, 16]);
}

#[test]
fn open_mode_bits() {
    assert_eq!(OpenMode::Read.bits(), 0x1);
    assert_eq!(OpenMode::ReadWrite.bits(), 0x3);
    assert_eq!(OpenMode::CreateReadWrite.bits(), (1u64 << 63) | 0x3);
}

#[test]
fn file_name_is_transcoded_and_zero_filled() {
    let units = encode_file_name("mem_map.csv");
    let expected: Vec<u16> = "mem_map.csv".encode_utf16().collect();
    assert_eq!(&units[..expected.len()], &expected[..]);
    assert!(units[expected.len()..].iter().all(|&u| u == 0));
    assert_eq!(units.len(), FILE_NAME_CAPACITY);
}

#[test]
fn file_name_outside_basic_plane_becomes_surrogate_pair() {
    let units = encode_file_name("a\u{1F600}é");
    assert_eq!(&units[..4], &[0x61, 0xD83D, 0xDE00, 0xE9]);
    assert!(units[4..].iter().all(|&u| u == 0));
}

#[test]
fn longest_file_name_keeps_a_terminator() {
    let name = "abcdefghijklmnopqrstuvwxyz01234";
    assert_eq!(name.len(), FILE_NAME_CAPACITY - 1);
    let units = encode_file_name(name);
    assert_eq!(units[30], '4' as u16);
    assert_eq!(units[31], 0);
}

#[test]
fn empty_file_name_is_all_zeros() {
    assert_eq!(encode_file_name(""), [0u16; FILE_NAME_CAPACITY]);
}

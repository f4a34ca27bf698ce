//! The file interface's open modes, and the form in which a file name
//! reaches the firmware.
use vstd::prelude::*;
use vstd::string::*;
use vstd::utf8::encode_utf8;
use crate::utf16::{
    char_utf16, lemma_utf16_concat, lemma_utf16_len_le_utf8_len, lemma_utf16_push, utf16_of,
};

verus! {

/// Open modes of the firmware file interface.
#[derive(Clone, Copy, Debug, PartialEq, Eq, Structural)]
pub enum OpenMode {
    Read,
    ReadWrite,
    CreateReadWrite,
}

/// The firmware's bit pattern for each open mode.
pub open spec fn open_mode_bits(mode: OpenMode) -> u64 {
    match mode {
        OpenMode::Read => 0x1,
        OpenMode::ReadWrite => 0x3,
        OpenMode::CreateReadWrite => 0x8000_0000_0000_0003,
    }
}

/// The modes' bit patterns: read is bit 0, read-write adds bit 1, and
/// create-read-write adds the top bit of the word.
pub proof fn lemma_open_mode_bits()
    ensures
        open_mode_bits(OpenMode::Read) == 0x1u64,
        open_mode_bits(OpenMode::ReadWrite) == 0x1u64 | 0x2u64,
        open_mode_bits(OpenMode::CreateReadWrite) == (1u64 << 63u64) | 0x1u64 | 0x2u64,
{
    assert(0x1u64 | 0x2u64 == 0x3u64) by (bit_vector);
    assert((1u64 << 63u64) | 0x1u64 | 0x2u64 == 0x8000_0000_0000_0003u64) by (bit_vector);
}

impl OpenMode {
    /// The mode word handed to the firmware's open call.
    pub fn bits(self) -> (r: u64)
        ensures
            r == open_mode_bits(self),
    {
        match self {
            OpenMode::Read => 0x1,
            OpenMode::ReadWrite => 0x3,
            OpenMode::CreateReadWrite => 0x8000_0000_0000_0003,
        }
    }
}

/// Units in the buffer that carries a file name to the firmware, its
/// terminating zero included.
pub const FILE_NAME_CAPACITY: usize = 32;

/// The buffer handed to the firmware for `name`: its UTF-16 units, then zeros.
pub open spec fn file_name_units(name: Seq<char>) -> Seq<u16> {
    utf16_of(name) + Seq::new((FILE_NAME_CAPACITY - utf16_of(name).len()) as nat, |_k: int| 0u16)
}

/// A name whose UTF-8 form fits below the capacity is never truncated: all
/// of its UTF-16 units reach the firmware, in order, followed by a zero.
/// Longer names are refused by `encode_file_name`'s precondition, so the
/// caller must stop before transcoding them.
pub proof fn lemma_file_name_not_truncated(name: Seq<char>)
    requires
        encode_utf8(name).len() < FILE_NAME_CAPACITY,
    ensures
        utf16_of(name).len() < FILE_NAME_CAPACITY,
        file_name_units(name).len() == FILE_NAME_CAPACITY,
        file_name_units(name).subrange(0, utf16_of(name).len() as int) == utf16_of(name),
        file_name_units(name)[utf16_of(name).len() as int] == 0,
{
    lemma_utf16_len_le_utf8_len(name);
    assert(file_name_units(name).subrange(0, utf16_of(name).len() as int) =~= utf16_of(name));
}

/// Appends the UTF-16 units of `c` to `out` at position `k`.
fn put_char_utf16(out: &mut [u16; FILE_NAME_CAPACITY], k: usize, c: char) -> (n: usize)
    requires
        k + char_utf16(c).len() <= FILE_NAME_CAPACITY,
    ensures
        n == char_utf16(c).len(),
        final(out)@ == old(out)@.subrange(0, k as int) + char_utf16(c) + old(out)@.subrange(
            k + n,
            FILE_NAME_CAPACITY as int,
        ),
{
    let v = c as u32;
    if v < 0x10000 {
        out[k] = v as u16;
        assert(final(out)@ =~= old(out)@.subrange(0, k as int) + char_utf16(c) + old(
            out,
        )@.subrange(k + 1, FILE_NAME_CAPACITY as int));
        1
    } else {
        let w = v - 0x10000;
        out[k] = (0xD800 + w / 0x400) as u16;
        out[k + 1] = (0xDC00 + w % 0x400) as u16;
        assert(final(out)@ =~= old(out)@.subrange(0, k as int) + char_utf16(c) + old(
            out,
        )@.subrange(k + 2, FILE_NAME_CAPACITY as int));
        2
    }
}

/// Transcodes a file name into the firmware's zero-terminated fixed-width form.
///
/// A name whose UTF-8 form has `FILE_NAME_CAPACITY` bytes or more is a
/// programming error that callers must stop before this call: it is never
/// truncated.
pub fn encode_file_name(name: &str) -> (r: [u16; FILE_NAME_CAPACITY])
    requires
        name.len() < FILE_NAME_CAPACITY,
    ensures
        r@ == file_name_units(name@),
        utf16_of(name@).len() < FILE_NAME_CAPACITY,
{
    let byte_len = name.as_bytes().len();
    assert(byte_len as nat == name.spec_bytes().len());
    proof {
        lemma_utf16_len_le_utf8_len(name@);
    }
    let n = name.unicode_len();
    let mut out = [0u16; FILE_NAME_CAPACITY];
    let mut i: usize = 0;
    let mut k: usize = 0;
    while i < n
        invariant
            n == name@.len(),
            i <= n,
            utf16_of(name@).len() < FILE_NAME_CAPACITY,
            k == utf16_of(name@.subrange(0, i as int)).len(),
            out@ == utf16_of(name@.subrange(0, i as int)) + Seq::new(
                (FILE_NAME_CAPACITY - k) as nat,
                |_k: int| 0u16,
            ),
        decreases n - i,
    {
        let c = name.get_char(i);
        proof {
            let pre = name@.subrange(0, i as int);
            assert(name@.subrange(0, i + 1) =~= pre.push(c));
            lemma_utf16_push(pre, c);
            lemma_utf16_concat(name@.subrange(0, i + 1), name@.subrange(i + 1, n as int));
            assert(name@.subrange(0, i + 1) + name@.subrange(i + 1, n as int) =~= name@);
        }
        let m = put_char_utf16(&mut out, k, c);
        assert(out@ =~= utf16_of(name@.subrange(0, i + 1)) + Seq::new(
            (FILE_NAME_CAPACITY - (k + m)) as nat,
            |_k: int| 0u16,
        ));
        k = k + m;
        i = i + 1;
    }
    assert(name@.subrange(0, n as int) =~= name@);
    out
}

} // verus!

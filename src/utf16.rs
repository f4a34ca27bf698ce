//! UTF-16, the firmware's fixed-width text form, as a function of characters.
use vstd::prelude::*;
use vstd::utf8::*;

verus! {

/// The UTF-16 code units of one character: one unit inside the basic
/// multilingual plane, a surrogate pair outside it.
pub open spec fn char_utf16(c: char) -> Seq<u16> {
    let v = c as u32;
    if v < 0x10000 {
        seq![v as u16]
    } else {
        seq![(0xD800 + (v - 0x10000) / 0x400) as u16, (0xDC00 + (v - 0x10000) % 0x400) as u16]
    }
}

/// The UTF-16 code units of a character sequence, in order.
pub open spec fn utf16_of(s: Seq<char>) -> Seq<u16>
    decreases s.len(),
{
    if s.len() == 0 {
        seq![]
    } else {
        char_utf16(s[0]) + utf16_of(s.drop_first())
    }
}

/// True when every character fits in a single UTF-16 unit.
pub open spec fn single_unit_chars(s: Seq<char>) -> bool {
    forall|k: int| 0 <= k < s.len() ==> (#[trigger] s[k] as u32) < 0x10000
}

/// The units of a concatenation are the units of its parts, in order.
pub proof fn lemma_utf16_concat(a: Seq<char>, b: Seq<char>)
    ensures
        utf16_of(a + b) == utf16_of(a) + utf16_of(b),
    decreases a.len(),
{
    if a.len() == 0 {
        assert(a + b =~= b);
        assert(utf16_of(a) + utf16_of(b) =~= utf16_of(b));
    } else {
        lemma_utf16_concat(a.drop_first(), b);
        assert((a + b).drop_first() =~= a.drop_first() + b);
        assert(utf16_of(a + b) =~= utf16_of(a) + utf16_of(b));
    }
}

/// Appending a character appends its units.
pub proof fn lemma_utf16_push(s: Seq<char>, c: char)
    ensures
        utf16_of(s.push(c)) == utf16_of(s) + char_utf16(c),
{
    lemma_utf16_concat(s, seq![c]);
    assert(s + seq![c] =~= s.push(c));
    assert(seq![c][0] == c);
    assert(seq![c].drop_first() =~= Seq::<char>::empty());
    assert(utf16_of(Seq::<char>::empty()) =~= Seq::<u16>::empty());
    assert(utf16_of(seq![c]) =~= char_utf16(c));
}

/// A text never takes more UTF-16 units than UTF-8 bytes.
pub proof fn lemma_utf16_len_le_utf8_len(s: Seq<char>)
    ensures
        utf16_of(s).len() <= encode_utf8(s).len(),
    decreases s.len(),
{
    if s.len() > 0 {
        lemma_utf16_len_le_utf8_len(s.drop_first());
        char_is_scalar(s[0]);
    }
}

} // verus!

//! The memory map as comma-separated text: a header line, then one line per
//! record with the type and page count in decimal and the addresses and
//! attributes in lower-case hexadecimal.
use vstd::prelude::*;
use crate::memory_map::MemoryDescriptor;

verus! {

/// The first line of the text, naming the fields.
pub const CSV_HEADER: &'static str = "type, physical_start, virtual_start, num_pages, attrs\n";

/// The ASCII digit for `d`, lower-case letters above nine.
pub open spec fn digit_char(d: nat) -> u8 {
    if d < 10 {
        (0x30 + d) as u8
    } else {
        (0x61 + d - 10) as u8
    }
}

/// The digits of `n` in `base`, most significant first, without leading zeros.
pub open spec fn digits(n: nat, base: nat) -> Seq<u8>
    recommends
        2 <= base <= 16,
    decreases n,
{
    if base < 2 || n < base {
        seq![digit_char(n % base)]
    } else {
        proof {
            assert(n / base < n) by (nonlinear_arith)
                requires
                    base >= 2,
                    n >= base,
            ;
        }
        digits(n / base, base).push(digit_char(n % base))
    }
}

/// Separates the fields of a line.
pub open spec fn separator() -> Seq<u8> {
    seq![0x2cu8, 0x20]
}

/// The line for one record, ending in a newline.
pub open spec fn csv_row(d: MemoryDescriptor) -> Seq<u8> {
    digits(d.typ as nat, 10) + separator() + digits(d.physical_start.0 as nat, 16) + separator()
        + digits(d.virtual_start.0 as nat, 16) + separator() + digits(d.number_of_pages as nat, 10)
        + separator() + digits(d.attribute as nat, 16) + seq![0x0au8]
}

/// Appends the digits of `n` in `base`.
pub fn push_digits(out: &mut Vec<u8>, n: u64, base: u64)
    requires
        2 <= base <= 16,
    ensures
        final(out)@ == old(out)@ + digits(n as nat, base as nat),
    decreases n,
{
    if n >= base {
        assert(n / base < n) by (nonlinear_arith)
            requires
                base >= 2,
                n >= base,
        ;
        push_digits(out, n / base, base);
    }
    let d = n % base;
    let c: u8 = if d < 10 {
        (0x30 + d) as u8
    } else {
        (0x61 + d - 10) as u8
    };
    out.push(c);
}

fn push_separator(out: &mut Vec<u8>)
    ensures
        final(out)@ == old(out)@ + separator(),
{
    out.push(0x2c);
    out.push(0x20);
}

/// The line for one record of the memory map.
pub fn csv_row_bytes(d: &MemoryDescriptor) -> (r: Vec<u8>)
    ensures
        r@ == csv_row(*d),
{
    let mut out: Vec<u8> = Vec::new();
    push_digits(&mut out, d.typ as u64, 10);
    push_separator(&mut out);
    push_digits(&mut out, d.physical_start.0, 16);
    push_separator(&mut out);
    push_digits(&mut out, d.virtual_start.0, 16);
    push_separator(&mut out);
    push_digits(&mut out, d.number_of_pages, 10);
    push_separator(&mut out);
    push_digits(&mut out, d.attribute, 16);
    out.push(0x0a);
    assert(out@ =~= csv_row(*d));
    out
}

} // verus!

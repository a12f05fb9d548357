//! Byte strings, and little-endian integers in them.
use vstd::prelude::*;

verus! {

/// The natural number that `bytes` spells, least significant byte first.
pub open spec fn le_value(bytes: Seq<u8>) -> nat
    decreases bytes.len(),
{
    if bytes.len() == 0 {
        0
    } else {
        bytes[0] as nat + 256 * le_value(bytes.drop_first())
    }
}

/// The `width` low bytes of `value`, least significant byte first.
pub open spec fn le_bytes(value: nat, width: nat) -> Seq<u8>
    decreases width,
{
    if width == 0 {
        Seq::empty()
    } else {
        seq![(value % 256) as u8] + le_bytes(value / 256, (width - 1) as nat)
    }
}

/// The number of values that `width` bytes can tell apart.
pub open spec fn le_bound(width: nat) -> nat
    decreases width,
{
    if width == 0 {
        1
    } else {
        256 * le_bound((width - 1) as nat)
    }
}

/// `le_bytes` yields exactly the requested number of bytes.
pub proof fn lemma_le_bytes_len(value: nat, width: nat)
    ensures
        le_bytes(value, width).len() == width,
    decreases width,
{
    if width > 0 {
        lemma_le_bytes_len(value / 256, (width - 1) as nat);
    }
}

/// Reading back what was written gives the value, for every value that fits.
pub proof fn lemma_le_read_of_write(value: nat, width: nat)
    requires
        value < le_bound(width),
    ensures
        le_value(le_bytes(value, width)) == value,
    decreases width,
{
    if width > 0 {
        let rest = (width - 1) as nat;
        assert(value / 256 < le_bound(rest));
        lemma_le_read_of_write(value / 256, rest);
        let bytes = le_bytes(value, width);
        assert(bytes.drop_first() =~= le_bytes(value / 256, rest));
        assert(bytes[0] as nat == value % 256);
    }
}

/// Writing what was read gives the bytes back, and what was read fits.
pub proof fn lemma_le_write_of_read(bytes: Seq<u8>)
    ensures
        le_value(bytes) < le_bound(bytes.len()),
        le_bytes(le_value(bytes), bytes.len()) == bytes,
    decreases bytes.len(),
{
    if bytes.len() > 0 {
        let rest = bytes.drop_first();
        lemma_le_write_of_read(rest);
        let value = le_value(bytes);
        assert(value / 256 == le_value(rest));
        assert((value % 256) as u8 == bytes[0]);
        assert(le_bytes(value, bytes.len()) =~= bytes);
    }
}

/// The bounds of the field widths that packets use.
pub proof fn lemma_le_bounds()
    ensures
        le_bound(2) == 0x1_0000,
        le_bound(4) == 0x1_0000_0000,
        le_bound(8) == 0x1_0000_0000_0000_0000,
{
    reveal_with_fuel(le_bound, 9);
}

/// Stores the low `width` bytes of `value` at `start`, least significant first.
pub fn write_le<const N: usize>(out: &mut [u8; N], start: usize, value: u64, width: usize)
    requires
        start + width <= old(out)@.len(),
        value < le_bound(width as nat),
    ensures
        final(out)@ == old(out)@.subrange(0, start as int) + le_bytes(value as nat, width as nat)
            + old(out)@.subrange(start + width, old(out)@.len() as int),
{
    let mut rest: u64 = value;
    let mut index: usize = 0;
    let ghost before = out@;
    proof {
        lemma_le_bytes_len(value as nat, width as nat);
        assert(before.subrange(0, start as int) + Seq::<u8>::empty()
            + before.subrange(start as int, before.len() as int) =~= before);
    }
    while index < width
        invariant
            index <= width,
            start + width <= before.len() == N,
            out@.len() == before.len(),
            forall|k: int|
                0 <= k < before.len() && !(start <= k < start + index) ==> out@[k] == before[k],
            le_bytes(value as nat, width as nat) == out@.subrange(start as int, start + index)
                + le_bytes(rest as nat, (width - index) as nat),
        decreases width - index,
    {
        let ghost prior = out@;
        out[start + index] = (rest % 256) as u8;
        proof {
            let byte = (rest % 256) as u8;
            let tail = le_bytes((rest / 256) as nat, (width - index - 1) as nat);
            assert(le_bytes(rest as nat, (width - index) as nat) == seq![byte] + tail);
            assert(out@.subrange(start as int, start + index + 1) =~= prior.subrange(
                start as int,
                start + index,
            ).push(byte));
            assert(prior.subrange(start as int, start + index) + (seq![byte] + tail)
                =~= out@.subrange(start as int, start + index + 1) + tail);
        }
        rest = rest / 256;
        index = index + 1;
    }
    proof {
        assert(le_bytes(rest as nat, 0) =~= Seq::<u8>::empty());
        assert(le_bytes(value as nat, width as nat) =~= out@.subrange(
            start as int,
            start + width,
        ));
        assert(out@ =~= before.subrange(0, start as int) + le_bytes(value as nat, width as nat)
            + before.subrange(start + width, before.len() as int));
    }
}

/// Reads `width` bytes at `start` as a little-endian integer.
pub fn read_le(input: &[u8], start: usize, width: usize) -> (value: u64)
    requires
        start + width <= input@.len(),
        width <= 8,
    ensures
        value as nat == le_value(input@.subrange(start as int, start + width)),
        value < le_bound(width as nat),
{
    let mut value: u64 = 0;
    let mut index: usize = width;
    let total: usize = input.len();
    proof {
        lemma_le_bounds();
        assert(input@.subrange(start + width, start + width) =~= Seq::<u8>::empty());
    }
    while index > 0
        invariant
            index <= width <= 8,
            start + width <= input@.len() == total,
            value as nat == le_value(input@.subrange(start + index, start + width)),
            value < le_bound((width - index) as nat),
        decreases index,
    {
        index = index - 1;
        proof {
            let here = input@.subrange(start + index, start + width);
            assert(here.drop_first() =~= input@.subrange(start + index + 1, start + width));
            lemma_le_write_of_read(here);
            lemma_le_bound_small((width - index) as nat);
        }
        value = value * 256 + input[start + index] as u64;
    }
    value
}

/// Whether two byte strings are the same.
pub fn equal_bytes(left: &[u8], right: &[u8]) -> (same: bool)
    ensures
        same == (left@ == right@),
{
    if left.len() != right.len() {
        return false;
    }
    let mut index: usize = 0;
    while index < left.len()
        invariant
            index <= left.len() == right.len(),
            forall|i: int| 0 <= i < index ==> left@[i] == right@[i],
        decreases left.len() - index,
    {
        if left[index] != right[index] {
            return false;
        }
        index = index + 1;
    }
    assert(left@ =~= right@);
    true
}

proof fn lemma_le_bound_small(width: nat)
    requires
        width <= 8,
    ensures
        le_bound(width) <= 0x1_0000_0000_0000_0000,
{
    reveal_with_fuel(le_bound, 9);
}

/// A byte of a number is its digit to the base 256, the least significant first.
pub proof fn bytes_are_digits(value: nat, width: nat, i: nat)
    requires
        i < width,
    ensures
        le_bytes(value, width)[i as int] == (value as int / vstd::arithmetic::power::pow(
            256,
            i,
        )) % 256,
    decreases width,
{
    lemma_le_bytes_len(value / 256, (width - 1) as nat);
    if i == 0 {
        vstd::arithmetic::power::lemma_pow0(256);
        assert(value as int / 1 == value);
    } else {
        let before = (i - 1) as nat;
        bytes_are_digits(value / 256, (width - 1) as nat, before);
        vstd::arithmetic::power::lemma_pow_positive(256, before);
        let rest = vstd::arithmetic::power::pow(256, before);
        assert(vstd::arithmetic::power::pow(256, i) == 256 * rest) by {
            reveal(vstd::arithmetic::power::pow);
        }
        vstd::arithmetic::div_mod::lemma_div_denominator(value as int, 256, rest);
        assert(le_bytes(value, width)[i as int] == le_bytes(
            value / 256,
            (width - 1) as nat,
        )[i - 1]);
    }
}

/// A number of two or four bytes is the sum of its bytes, each with its weight.
pub proof fn short_numbers_add_up(bytes: Seq<u8>)
    ensures
        bytes.len() == 2 ==> le_value(bytes) == bytes[0] + 256 * bytes[1],
        bytes.len() == 4 ==> le_value(bytes) == bytes[0] + 256 * bytes[1] + 65_536 * bytes[2]
            + 16_777_216 * bytes[3],
{
    reveal_with_fuel(le_value, 5);
    if bytes.len() == 2 || bytes.len() == 4 {
        let one = bytes.drop_first();
        let two = one.drop_first();
        assert(one[0] == bytes[1]);
        if bytes.len() == 4 {
            let three = two.drop_first();
            assert(two[0] == bytes[2]);
            assert(three[0] == bytes[3]);
        }
    }
}

} // verus!

//! Little-endian integers and byte ranges: the two things that every field of
//! a frame is made of.

use vstd::prelude::*;

verus! {

/// `256` to the power of `width`: the number of values that `width` octets
/// can tell apart.
pub open spec fn radix(width: nat) -> nat
    decreases width,
{
    if width == 0 {
        1
    } else {
        256 * radix((width - 1) as nat)
    }
}

/// The `width` octets that carry `value`, least significant first. A value
/// too large for `width` octets loses its high part.
pub open spec fn le_bytes(value: nat, width: nat) -> Seq<u8>
    decreases width,
{
    if width == 0 {
        Seq::empty()
    } else {
        seq![(value % 256) as u8] + le_bytes(value / 256, (width - 1) as nat)
    }
}

/// The number that a run of octets carries, least significant first.
pub open spec fn le_value(bytes: Seq<u8>) -> nat
    decreases bytes.len(),
{
    if bytes.len() == 0 {
        0
    } else {
        bytes[0] as nat + 256 * le_value(bytes.skip(1))
    }
}

/// `buf` with the octets from `at` on replaced by `bytes`; its length does
/// not change where `bytes` fits.
pub open spec fn splice(buf: Seq<u8>, at: int, bytes: Seq<u8>) -> Seq<u8> {
    buf.subrange(0, at) + bytes + buf.skip(at + bytes.len())
}

/// More octets tell more values apart.
pub proof fn lemma_radix_grows(small: nat, large: nat)
    requires
        small <= large,
    ensures
        radix(small) <= radix(large),
    decreases large,
{
    if small < large {
        lemma_radix_grows(small, (large - 1) as nat);
    }
}

/// `radix` at the widths of the integer types.
pub proof fn lemma_radix_values()
    ensures
        radix(0) == 1,
        radix(1) == 0x100,
        radix(2) == 0x1_0000,
        radix(4) == 0x1_0000_0000,
        radix(8) == 0x1_0000_0000_0000_0000,
{
    reveal_with_fuel(radix, 9);
}

/// A number is carried by as many octets as were asked for.
pub proof fn lemma_le_bytes_len(value: nat, width: nat)
    ensures
        le_bytes(value, width).len() == width,
    decreases width,
{
    if width > 0 {
        lemma_le_bytes_len(value / 256, (width - 1) as nat);
    }
}

/// Octets carry a number below `radix` of their count.
pub proof fn lemma_le_value_bound(bytes: Seq<u8>)
    ensures
        le_value(bytes) < radix(bytes.len()),
    decreases bytes.len(),
{
    if bytes.len() > 0 {
        lemma_le_value_bound(bytes.skip(1));
    }
}

/// Reading back what was written gives the number, if it fits the width.
pub proof fn lemma_le_value_of_bytes(value: nat, width: nat)
    requires
        value < radix(width),
    ensures
        le_value(le_bytes(value, width)) == value,
    decreases width,
{
    lemma_le_bytes_len(value, width);
    if width > 0 {
        let tail = le_bytes(value / 256, (width - 1) as nat);
        assert(le_bytes(value, width).skip(1) =~= tail);
        lemma_le_value_of_bytes(value / 256, (width - 1) as nat);
    }
}

/// Writing back what was read gives the same octets.
pub proof fn lemma_le_bytes_of_value(bytes: Seq<u8>)
    ensures
        le_bytes(le_value(bytes), bytes.len()) == bytes,
    decreases bytes.len(),
{
    if bytes.len() > 0 {
        lemma_le_bytes_of_value(bytes.skip(1));
        assert(le_bytes(le_value(bytes), bytes.len()) =~= bytes);
    } else {
        assert(le_bytes(le_value(bytes), bytes.len()) =~= bytes);
    }
}

/// Two writes side by side are one write of both.
pub proof fn lemma_splice_twice(buf: Seq<u8>, at: int, first: Seq<u8>, second: Seq<u8>)
    requires
        0 <= at,
        at + first.len() + second.len() <= buf.len(),
    ensures
        splice(splice(buf, at, first), at + first.len(), second) == splice(
            buf,
            at,
            first + second,
        ),
{
    assert(splice(splice(buf, at, first), at + first.len(), second) =~= splice(
        buf,
        at,
        first + second,
    ));
}

/// Reads the first `width` octets of `input` as one little-endian number.
pub fn read_le(input: &[u8], width: usize) -> (value: u64)
    requires
        width <= 8,
        width <= input.len(),
    ensures
        value == le_value(input@.take(width as int)),
{
    let ghost field = input@.take(width as int);
    let mut value: u64 = 0;
    let mut i: usize = width;
    proof {
        assert(field.skip(width as int) =~= Seq::<u8>::empty());
    }
    while i > 0
        invariant
            i <= width <= 8,
            width <= input.len(),
            field == input@.take(width as int),
            value == le_value(field.skip(i as int)),
        decreases i,
    {
        i -= 1;
        proof {
            let run = field.skip(i as int);
            assert(run.skip(1) =~= field.skip(i + 1));
            assert(run[0] == input@[i as int]);
            lemma_le_value_bound(run);
            lemma_radix_grows(run.len(), 8);
            lemma_radix_values();
        }
        value = input[i] as u64 + 256 * value;
    }
    proof {
        assert(field.skip(0) =~= field);
    }
    value
}

/// Writes the low `width` octets of `value` to `buf` from `at` on, least
/// significant first.
pub fn write_le(buf: &mut [u8], at: usize, value: u64, width: usize)
    requires
        width <= 8,
        at + width <= old(buf).len(),
    ensures
        final(buf)@ == splice(old(buf)@, at as int, le_bytes(value as nat, width as nat)),
{
    let mut rest: u64 = value;
    let mut i: usize = 0;
    proof {
        assert(buf@ =~= splice(old(buf)@, at as int, Seq::<u8>::empty()));
    }
    while i < width
        invariant
            i <= width <= 8,
            at + width <= buf.len(),
            buf@.len() == old(buf)@.len(),
            buf@ == splice(old(buf)@, at as int, buf@.subrange(at as int, at + i)),
            le_bytes(value as nat, width as nat) == buf@.subrange(at as int, at + i) + le_bytes(
                rest as nat,
                (width - i) as nat,
            ),
        decreases width - i,
    {
        let ghost before = buf@;
        let ghost done = buf@.subrange(at as int, at + i);
        let low: u8 = (rest % 256) as u8;
        buf[at + i] = low;
        rest = rest / 256;
        i += 1;
        proof {
            assert(buf@.subrange(at as int, at + i) =~= done.push(low));
            assert(buf@ =~= splice(old(buf)@, at as int, done.push(low)));
            assert(done.push(low) + le_bytes(rest as nat, (width - i) as nat) =~= done + (seq![low]
                + le_bytes(rest as nat, (width - i) as nat)));
        }
    }
    proof {
        assert(le_bytes(rest as nat, 0) =~= Seq::<u8>::empty());
        assert(buf@.subrange(at as int, at + width) + Seq::<u8>::empty() =~= buf@.subrange(
            at as int,
            at + width,
        ));
    }
}

/// Copies `bytes` to `buf` from `at` on.
pub fn write_bytes(buf: &mut [u8], at: usize, bytes: &[u8])
    requires
        at + bytes.len() <= old(buf).len(),
    ensures
        final(buf)@ == splice(old(buf)@, at as int, bytes@),
{
    let mut i: usize = 0;
    proof {
        assert(buf@ =~= splice(old(buf)@, at as int, bytes@.take(0)));
    }
    while i < bytes.len()
        invariant
            i <= bytes.len(),
            at + bytes.len() <= buf.len(),
            buf@.len() == old(buf)@.len(),
            buf@ == splice(old(buf)@, at as int, bytes@.take(i as int)),
        decreases bytes.len() - i,
    {
        buf[at + i] = bytes[i];
        i += 1;
        proof {
            assert(buf@ =~= splice(old(buf)@, at as int, bytes@.take(i as int)));
        }
    }
    proof {
        assert(bytes@.take(bytes.len() as int) =~= bytes@);
    }
}

} // verus!

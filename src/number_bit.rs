use vstd::prelude::*;

verus! {

/// The number that `bytes` spell in big-endian order.
pub open spec fn be_value(bytes: Seq<u8>) -> nat
    decreases bytes.len(),
{
    if bytes.len() == 0 {
        0
    } else {
        be_value(bytes.drop_last()) * 256 + bytes.last() as nat
    }
}

proof fn lemma_be_value_4(b: Seq<u8>)
    requires
        b.len() == 4,
    ensures
        be_value(b) == ((b[0] as nat * 256 + b[1] as nat) * 256 + b[2] as nat) * 256 + b[3] as nat,
{
    reveal_with_fuel(be_value, 5);
    assert(b.drop_last().drop_last().drop_last().drop_last() =~= Seq::<u8>::empty());
}

proof fn lemma_be_value_8(b: Seq<u8>)
    requires
        b.len() == 8,
    ensures
        be_value(b) == ((((((b[0] as nat * 256 + b[1] as nat) * 256 + b[2] as nat) * 256
            + b[3] as nat) * 256 + b[4] as nat) * 256 + b[5] as nat) * 256 + b[6] as nat) * 256
            + b[7] as nat,
{
    reveal_with_fuel(be_value, 9);
    assert(b.drop_last().drop_last().drop_last().drop_last().drop_last().drop_last().drop_last().drop_last()
        =~= Seq::<u8>::empty());
}

/// The four bytes of `x`, most significant first.
pub fn u32_big_to_bin(x: u32) -> (r: [u8; 4])
    ensures
        be_value(r@) == x,
{
    let b1 = ((x >> 24) & 0xff) as u8;
    let b2 = ((x >> 16) & 0xff) as u8;
    let b3 = ((x >> 8) & 0xff) as u8;
    let b4 = (x & 0xff) as u8;
    let r = [b1, b2, b3, b4];
    proof {
        lemma_be_value_4(r@);
        assert(((((x >> 24) & 0xff) as u8) as u32 * 256 + (((x >> 16) & 0xff) as u8) as u32)
            * 256 * 256 + ((((x >> 8) & 0xff) as u8) as u32 * 256 + ((x & 0xff) as u8) as u32)
            == x) by (bit_vector);
    }
    r
}

/// Writes the four bytes of `x` into `buf`, most significant first.
pub fn u32_big_fill_buf(x: u32, buf: &mut [u8])
    requires
        old(buf)@.len() == 4,
    ensures
        final(buf)@.len() == 4,
        be_value(final(buf)@) == x,
{
    buf[0] = ((x >> 24) & 0xff) as u8;
    buf[1] = ((x >> 16) & 0xff) as u8;
    buf[2] = ((x >> 8) & 0xff) as u8;
    buf[3] = (x & 0xff) as u8;
    proof {
        lemma_be_value_4(buf@);
        assert(((((x >> 24) & 0xff) as u8) as u32 * 256 + (((x >> 16) & 0xff) as u8) as u32)
            * 256 * 256 + ((((x >> 8) & 0xff) as u8) as u32 * 256 + ((x & 0xff) as u8) as u32)
            == x) by (bit_vector);
    }
}

/// The number that four bytes spell, most significant first.
pub fn bin_big_to_u32(x: &[u8]) -> (r: u32)
    requires
        x@.len() == 4,
    ensures
        r == be_value(x@),
{
    let (a, b, c, d) = (x[0], x[1], x[2], x[3]);
    proof {
        lemma_be_value_4(x@);
        assert(((a as u32) << 24u32) + ((b as u32) << 16u32) + ((c as u32) << 8u32) + (d as u32)
            <= 0xffff_ffff && ((a as u32) << 24u32) + ((b as u32) << 16u32) + ((c as u32)
            << 8u32) + (d as u32) == ((a as u32 * 256 + b as u32) * 256 + c as u32) * 256
            + d as u32) by (bit_vector);
    }
    let b1 = (a as u32) << 24;
    let b2 = (b as u32) << 16;
    let b3 = (c as u32) << 8;
    let b4 = d as u32;
    b1 + b2 + b3 + b4
}

proof fn lemma_u64_bytes(x: u64)
    by (bit_vector)
    ensures
        ((((((((((x >> 56u64) & 0xffff) as u8) as u64 * 256 + (((x >> 48u64) & 0xffff) as u8) as u64)
            * 256 + (((x >> 40u64) & 0xffff) as u8) as u64) * 256 + (((x >> 32u64) & 0xffff) as u8) as u64)
            * 256 + (((x >> 24u64) & 0xffff) as u8) as u64) * 256 + (((x >> 16u64) & 0xffff) as u8) as u64)
            * 256 + (((x >> 8u64) & 0xffff) as u8) as u64) * 256 + ((x & 0xffff) as u8) as u64) == x,
{
}

/// The eight bytes of `x`, most significant first.
pub fn u64_big_to_bin(x: u64) -> (r: [u8; 8])
    ensures
        be_value(r@) == x,
{
    let b1 = ((x >> 56) & 0xffff) as u8;
    let b2 = ((x >> 48) & 0xffff) as u8;
    let b3 = ((x >> 40) & 0xffff) as u8;
    let b4 = ((x >> 32) & 0xffff) as u8;
    let b5 = ((x >> 24) & 0xffff) as u8;
    let b6 = ((x >> 16) & 0xffff) as u8;
    let b7 = ((x >> 8) & 0xffff) as u8;
    let b8 = (x & 0xffff) as u8;
    let r = [b1, b2, b3, b4, b5, b6, b7, b8];
    proof {
        lemma_be_value_8(r@);
        lemma_u64_bytes(x);
    }
    r
}

/// Writes the eight bytes of `x` into `buf`, most significant first.
pub fn u64_big_fill_buf(x: u64, buf: &mut [u8])
    requires
        old(buf)@.len() == 8,
    ensures
        final(buf)@.len() == 8,
        be_value(final(buf)@) == x,
{
    buf[0] = ((x >> 56) & 0xffff) as u8;
    buf[1] = ((x >> 48) & 0xffff) as u8;
    buf[2] = ((x >> 40) & 0xffff) as u8;
    buf[3] = ((x >> 32) & 0xffff) as u8;
    buf[4] = ((x >> 24) & 0xffff) as u8;
    buf[5] = ((x >> 16) & 0xffff) as u8;
    buf[6] = ((x >> 8) & 0xffff) as u8;
    buf[7] = (x & 0xffff) as u8;
    proof {
        lemma_be_value_8(buf@);
        lemma_u64_bytes(x);
    }
}

proof fn lemma_u64_sum(a: u8, b: u8, c: u8, d: u8, e: u8, f: u8, g: u8, h: u8)
    by (bit_vector)
    ensures
        ((a as u64) << 56u64) as int + ((b as u64) << 48u64) as int + ((c as u64) << 40u64) as int
            + ((d as u64) << 32u64) as int + ((e as u64) << 24u64) as int + ((f as u64) << 16u64) as int
            + ((g as u64) << 8u64) as int + (h as u64) as int == (((((((a as int * 256 + b as int) * 256
            + c as int) * 256 + d as int) * 256 + e as int) * 256 + f as int) * 256 + g as int) * 256
            + h as int),
        ((((((a as int * 256 + b as int) * 256 + c as int) * 256 + d as int) * 256 + e as int) * 256
            + f as int) * 256 + g as int) * 256 + h as int <= 0xffff_ffff_ffff_ffff,
{
}

/// The number that eight bytes spell, most significant first.
pub fn bin_big_to_u64(x: &[u8]) -> (r: u64)
    requires
        x@.len() == 8,
    ensures
        r == be_value(x@),
{
    proof {
        lemma_be_value_8(x@);
        lemma_u64_sum(x@[0], x@[1], x@[2], x@[3], x@[4], x@[5], x@[6], x@[7]);
    }
    let b1 = (x[0] as u64) << 56;
    let b2 = (x[1] as u64) << 48;
    let b3 = (x[2] as u64) << 40;
    let b4 = (x[3] as u64) << 32;
    let b5 = (x[4] as u64) << 24;
    let b6 = (x[5] as u64) << 16;
    let b7 = (x[6] as u64) << 8;
    let b8 = x[7] as u64;
    b1 + b2 + b3 + b4 + b5 + b6 + b7 + b8
}

} // verus!

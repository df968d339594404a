//! Block/control codec: a 16-byte block carries a 127-bit seed together with a
//! 1-bit control value in the top bit (bit 7 of the last byte). This module
//! splits and combines the two, selects a block by a bit without inspecting
//! secret data, and XORs blocks byte by byte.
use vstd::prelude::*;

verus! {

/// Size in bytes of a tree block.
pub const BLOCK_LEN: usize = 16;

/// A 16-byte tree node; both raw PRG output and, once the top bit is cleared,
/// a seed.
pub type Block = [u8; BLOCK_LEN];

/// The all-zero block.
pub open spec fn zero_block() -> Seq<u8> {
    Seq::new(16, |i: int| 0u8)
}

/// Byte-wise XOR of two blocks.
pub open spec fn block_xor(a: Seq<u8>, b: Seq<u8>) -> Seq<u8> {
    Seq::new(16, |i: int| a[i] ^ b[i])
}

/// The control bit carried in a block: bit 7 of its last byte.
pub open spec fn msb_of(b: Seq<u8>) -> u8 {
    b[15] >> 7u8
}

/// The block with its control bit cleared: the pure seed part.
pub open spec fn mask_of(b: Seq<u8>) -> Seq<u8> {
    b.update(15, b[15] & 0x7fu8)
}

/// A block is a seed exactly when its top bit is clear.
pub open spec fn is_seed(b: Seq<u8>) -> bool {
    b.len() == 16 && b[15] >> 7u8 == 0
}

/// A seed with the control bit `t` written into the top bit.
pub open spec fn combine_of(s: Seq<u8>, t: u8) -> Seq<u8> {
    s.update(15, s[15] ^ (t << 7u8))
}

/// `b` when `t` is set, the all-zero block otherwise.
pub open spec fn select_of(t: u8, b: Seq<u8>) -> Seq<u8> {
    if t == 1 {
        b
    } else {
        zero_block()
    }
}

/// A path bit as the byte 0 or 1.
pub open spec fn bit_of(b: bool) -> u8 {
    if b {
        1u8
    } else {
        0u8
    }
}

/// The product of two bits held as bytes: `c` when `t` is set, 0 otherwise.
pub open spec fn bit_and(t: u8, c: u8) -> u8 {
    if t == 1 {
        c
    } else {
        0u8
    }
}

/// XOR `input` into `out`, byte by byte.
pub fn xor_in_memory(out: &mut Block, input: &Block)
    ensures
        final(out)@ == block_xor(old(out)@, input@),
{
    let mut i: usize = 0;
    while i < BLOCK_LEN
        invariant
            i <= 16,
            forall|j: int| 0 <= j < i ==> out@[j] == old(out)@[j] ^ input@[j],
            forall|j: int| i <= j < 16 ==> out@[j] == old(out)@[j],
        decreases 16 - i,
    {
        out[i] = out[i] ^ input[i];
        i = i + 1;
    }
    proof {
        assert(out@ =~= block_xor(old(out)@, input@));
    }
}

/// Read the control bit out of a block.
pub fn get_msb(b: &Block) -> (t: u8)
    ensures
        t == msb_of(b@),
        t <= 1,
{
    proof {
        lemma_msb_bounds(b@[15]);
    }
    b[BLOCK_LEN - 1] >> 7u8
}

/// Clear the control bit of a block in place, leaving the pure seed.
pub fn mask_msb(b: &mut Block)
    ensures
        final(b)@ == mask_of(old(b)@),
        is_seed(final(b)@),
{
    proof {
        lemma_msb_bounds(old(b)@[15]);
    }
    b[BLOCK_LEN - 1] = b[BLOCK_LEN - 1] & 0x7fu8;
    proof {
        assert(b@ =~= mask_of(old(b)@));
    }
}

/// Split a raw block into its seed part and its control bit.
pub fn parse_s_t(b: Block) -> (r: (Block, u8))
    ensures
        r.0@ == mask_of(b@),
        r.1 == msb_of(b@),
        is_seed(r.0@),
        r.1 <= 1,
{
    let t = get_msb(&b);
    let mut s = b;
    mask_msb(&mut s);
    (s, t)
}

/// Write the control bit `t` back into the top bit of the seed `s`; the
/// inverse of `parse_s_t` on well-formed inputs.
pub fn combine_s_t(s: Block, t: u8) -> (r: Block)
    requires
        is_seed(s@),
        t <= 1,
    ensures
        r@ == combine_of(s@, t),
{
    let mut r = s;
    r[BLOCK_LEN - 1] = r[BLOCK_LEN - 1] ^ (t << 7u8);
    proof {
        assert(r@ =~= combine_of(s@, t));
    }
    r
}

/// Select `block` by `bit`: the all-zero block for 0, a copy of `block` for 1.
/// The correction term of a level is applied through this, so that the shape
/// of the computation does not depend on the control bit.
pub fn bitmul(bit: u8, block: &Block) -> (r: Block)
    requires
        bit <= 1,
    ensures
        r@ == select_of(bit, block@),
        bit == 0 ==> r@ == zero_block(),
        bit == 1 ==> r@ == block@,
{
    if bit == 0 {
        let z: Block = [0u8; BLOCK_LEN];
        proof {
            assert(z@ =~= zero_block());
        }
        z
    } else {
        *block
    }
}

/// Bit 7 of a masked byte is clear, and a top bit is never more than 1.
pub proof fn lemma_msb_bounds(x: u8)
    by (bit_vector)
    ensures
        (x & 0x7f) >> 7u8 == 0,
        x >> 7u8 <= 1,
{
}

/// Masking any 16-byte block yields a seed, and a control bit is a bit.
pub proof fn lemma_mask_seed(b: Seq<u8>)
    requires
        b.len() == 16,
    ensures
        is_seed(mask_of(b)),
        msb_of(b) <= 1,
{
    lemma_msb_bounds(b[15]);
}

/// XOR keeps byte values that are bits within the bits.
pub proof fn lemma_bit_xor_bounds(a: u8, b: u8, c: u8, d: u8)
    by (bit_vector)
    ensures
        a <= 1 && b <= 1 ==> (a ^ b) <= 1,
        a <= 1 && b <= 1 && c <= 1 ==> (a ^ b ^ c) <= 1,
        a <= 1 && b <= 1 && c <= 1 && d <= 1 ==> (a ^ b ^ c ^ d) <= 1,
{
}

/// Multiplying by a bit is selection.
pub proof fn lemma_bit_mul(t: u8, c: u8)
    requires
        t <= 1,
    ensures
        t * c == bit_and(t, c),
{
    if t == 1 {
        assert(1 * c == c);
    } else {
        assert(t == 0);
        assert(0 * c == 0);
    }
}

/// The all-zero block is a seed, and XOR with it changes nothing.
pub proof fn lemma_xor_zero(a: Seq<u8>)
    requires
        a.len() == 16,
    ensures
        is_seed(zero_block()),
        block_xor(a, zero_block()) == a,
{
    assert(0u8 >> 7u8 == 0) by (bit_vector);
    assert forall|i: int| 0 <= i < 16 implies block_xor(a, zero_block())[i] == a[i] by {
        let x = a[i];
        assert(x ^ 0 == x) by (bit_vector);
    }
    assert(block_xor(a, zero_block()) =~= a);
}

/// XOR of blocks is commutative.
pub proof fn lemma_xor_comm(a: Seq<u8>, b: Seq<u8>)
    ensures
        block_xor(a, b) == block_xor(b, a),
{
    assert forall|i: int| 0 <= i < 16 implies block_xor(a, b)[i] == block_xor(b, a)[i] by {
        let x = a[i];
        let y = b[i];
        assert(x ^ y == y ^ x) by (bit_vector);
    }
    assert(block_xor(a, b) =~= block_xor(b, a));
}

/// XORing a block in twice cancels it.
pub proof fn lemma_xor_cancel(a: Seq<u8>, b: Seq<u8>)
    requires
        b.len() == 16,
    ensures
        block_xor(a, block_xor(a, b)) == b,
{
    assert forall|i: int| 0 <= i < 16 implies block_xor(a, block_xor(a, b))[i] == b[i] by {
        let x = a[i];
        let y = b[i];
        assert(x ^ (x ^ y) == y) by (bit_vector);
    }
    assert(block_xor(a, block_xor(a, b)) =~= b);
}

/// Seed part and control bit both distribute over XOR.
pub proof fn lemma_mask_xor(a: Seq<u8>, b: Seq<u8>)
    requires
        a.len() == 16,
        b.len() == 16,
    ensures
        mask_of(block_xor(a, b)) == block_xor(mask_of(a), mask_of(b)),
        msb_of(block_xor(a, b)) == msb_of(a) ^ msb_of(b),
{
    let x = a[15];
    let y = b[15];
    assert((x ^ y) & 0x7f == (x & 0x7f) ^ (y & 0x7f)) by (bit_vector);
    assert((x ^ y) >> 7u8 == (x >> 7u8) ^ (y >> 7u8)) by (bit_vector);
    assert(mask_of(block_xor(a, b)) =~= block_xor(mask_of(a), mask_of(b)));
}

/// XOR of two seeds is again a seed.
pub proof fn lemma_xor_seed(a: Seq<u8>, b: Seq<u8>)
    requires
        is_seed(a),
        is_seed(b),
    ensures
        is_seed(block_xor(a, b)),
{
    let x = a[15];
    let y = b[15];
    assert(x >> 7u8 == 0 && y >> 7u8 == 0 ==> (x ^ y) >> 7u8 == 0) by (bit_vector);
}

/// Codec round trip: for every seed `s` and bit `t`, splitting the combined
/// block returns exactly `(s, t)`. (The raw-block direction fails in general:
/// splitting clears the top bit.)
pub proof fn lemma_split_combine_roundtrip(s: Seq<u8>, t: u8)
    requires
        is_seed(s),
        t <= 1,
    ensures
        mask_of(combine_of(s, t)) == s,
        msb_of(combine_of(s, t)) == t,
{
    let x = s[15];
    assert(x >> 7u8 == 0 && t <= 1 ==> (x ^ (t << 7u8)) & 0x7f == x) by (bit_vector);
    assert(x >> 7u8 == 0 && t <= 1 ==> (x ^ (t << 7u8)) >> 7u8 == t) by (bit_vector);
    assert(mask_of(combine_of(s, t)) =~= s);
}

/// Splitting a selected, recombined correction term: the seed part is the
/// selected correction seed, the control part is the product of the two bits.
pub proof fn lemma_split_selected(t: u8, c: Seq<u8>, tc: u8)
    requires
        t <= 1,
        tc <= 1,
        is_seed(c),
    ensures
        select_of(t, combine_of(c, tc)).len() == 16,
        is_seed(select_of(t, c)),
        mask_of(select_of(t, combine_of(c, tc))) == select_of(t, c),
        msb_of(select_of(t, combine_of(c, tc))) == bit_and(t, tc),
{
    lemma_xor_zero(c);
    if t == 1 {
        lemma_split_combine_roundtrip(c, tc);
    } else {
        assert(0u8 & 0x7f == 0) by (bit_vector);
        assert(0u8 >> 7u8 == 0) by (bit_vector);
        assert(mask_of(zero_block()) =~= zero_block());
    }
}

} // verus!

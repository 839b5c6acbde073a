//! Single bits of a byte bank.

use vstd::prelude::*;

verus! {

/// Whether bit `channel` of `bank` is set.
pub open spec fn bit_is_set(bank: u8, channel: u8) -> bool {
    bank & (1u8 << channel) != 0
}

/// Reads bit `channel` of `bank`.
pub fn test_bit(bank: u8, channel: u8) -> (r: bool)
    requires
        channel < 8,
    ensures
        r == bit_is_set(bank, channel),
{
    let mask: u8 = 1u8 << channel;
    bank & mask != 0
}

/// `bank` with bit `channel` set to `value` and every other bit as it was.
pub fn with_bit(bank: u8, channel: u8, value: bool) -> (r: u8)
    requires
        channel < 8,
    ensures
        bit_is_set(r, channel) == value,
        forall|c: u8| c < 8 && c != channel ==> bit_is_set(r, c) == bit_is_set(bank, c),
{
    let mask: u8 = 1u8 << channel;
    let r: u8 = if value {
        bank | mask
    } else {
        bank & !mask
    };
    proof {
        lemma_with_bit(bank, channel, value, r);
    }
    r
}

proof fn lemma_with_bit(bank: u8, channel: u8, value: bool, r: u8)
    requires
        channel < 8,
        r == if value {
            bank | (1u8 << channel)
        } else {
            bank & !(1u8 << channel)
        },
    ensures
        bit_is_set(r, channel) == value,
        forall|c: u8| c < 8 && c != channel ==> bit_is_set(r, c) == bit_is_set(bank, c),
{
    assert(bit_is_set(r, channel) == value) by (bit_vector)
        requires
            channel < 8,
            r == if value {
                bank | (1u8 << channel)
            } else {
                bank & !(1u8 << channel)
            },
    ;
    assert forall|c: u8| c < 8 && c != channel implies bit_is_set(r, c) == bit_is_set(bank, c) by {
        assert(bit_is_set(r, c) == bit_is_set(bank, c)) by (bit_vector)
            requires
                channel < 8,
                c < 8,
                c != channel,
                r == if value {
                    bank | (1u8 << channel)
                } else {
                    bank & !(1u8 << channel)
                },
        ;
    }
}

/// No bit of the zero byte is set.
pub proof fn lemma_zero_has_no_bit(channel: u8)
    requires
        channel < 8,
    ensures
        !bit_is_set(0, channel),
{
    assert(!bit_is_set(0, channel)) by (bit_vector)
        requires
            channel < 8,
    ;
}

/// Two bytes with the same eight bits are the same byte.
pub proof fn lemma_bits_determine_byte(a: u8, b: u8)
    requires
        forall|c: u8| c < 8 ==> bit_is_set(a, c) == bit_is_set(b, c),
    ensures
        a == b,
{
    assert(bit_is_set(a, 0) == bit_is_set(b, 0));
    assert(bit_is_set(a, 1) == bit_is_set(b, 1));
    assert(bit_is_set(a, 2) == bit_is_set(b, 2));
    assert(bit_is_set(a, 3) == bit_is_set(b, 3));
    assert(bit_is_set(a, 4) == bit_is_set(b, 4));
    assert(bit_is_set(a, 5) == bit_is_set(b, 5));
    assert(bit_is_set(a, 6) == bit_is_set(b, 6));
    assert(bit_is_set(a, 7) == bit_is_set(b, 7));
    assert(a == b) by (bit_vector)
        requires
            bit_is_set(a, 0) == bit_is_set(b, 0),
            bit_is_set(a, 1) == bit_is_set(b, 1),
            bit_is_set(a, 2) == bit_is_set(b, 2),
            bit_is_set(a, 3) == bit_is_set(b, 3),
            bit_is_set(a, 4) == bit_is_set(b, 4),
            bit_is_set(a, 5) == bit_is_set(b, 5),
            bit_is_set(a, 6) == bit_is_set(b, 6),
            bit_is_set(a, 7) == bit_is_set(b, 7),
    ;
}

} // verus!

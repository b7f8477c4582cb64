use vstd::prelude::*;

verus! {

/// True when bit `k` of `b` is set; bit 0 is the least-significant bit.
pub open spec fn nth_bit(b: u8, k: u8) -> bool {
    (b >> k) & 1u8 == 1u8
}

/// `b` with bit `k` forced to `value` and every other bit unchanged.
pub open spec fn with_bit(b: u8, k: u8, value: bool) -> u8 {
    if value {
        b | (1u8 << k)
    } else {
        b & !(1u8 << k)
    }
}

/// A byte of all zeroes has no bit set.
pub proof fn lemma_zero_byte_clear(k: u8)
    requires
        k < 8,
    ensures
        !nth_bit(0u8, k),
{
    assert((0u8 >> k) & 1u8 == 0u8) by (bit_vector);
}

/// Testing a byte against the mask `1 << k` reads exactly bit `k`.
pub proof fn lemma_mask_test_reads_bit(b: u8, k: u8)
    requires
        k < 8,
    ensures
        (b & (1u8 << k) != 0u8) == nth_bit(b, k),
{
    assert((b & (1u8 << k) != 0u8) == ((b >> k) & 1u8 == 1u8)) by (bit_vector)
        requires
            k < 8,
    ;
}

/// Writing bit `k` makes that bit read back as the written value.
pub proof fn lemma_with_bit_reads_back(b: u8, k: u8, value: bool)
    requires
        k < 8,
    ensures
        nth_bit(with_bit(b, k, value), k) == value,
{
    if value {
        assert(((b | (1u8 << k)) >> k) & 1u8 == 1u8) by (bit_vector)
            requires
                k < 8,
        ;
    } else {
        assert(((b & !(1u8 << k)) >> k) & 1u8 == 0u8) by (bit_vector)
            requires
                k < 8,
        ;
    }
}

/// Writing bit `k` leaves every other bit of the byte as it was.
pub proof fn lemma_with_bit_preserves_others(b: u8, k: u8, j: u8, value: bool)
    requires
        k < 8,
        j < 8,
        j != k,
    ensures
        nth_bit(with_bit(b, k, value), j) == nth_bit(b, j),
{
    if value {
        assert(((b | (1u8 << k)) >> j) & 1u8 == (b >> j) & 1u8) by (bit_vector)
            requires
                k < 8,
                j < 8,
                j != k,
        ;
    } else {
        assert(((b & !(1u8 << k)) >> j) & 1u8 == (b >> j) & 1u8) by (bit_vector)
            requires
                k < 8,
                j < 8,
                j != k,
        ;
    }
}

/// Flipping bit `k` and then flipping it back restores the byte exactly.
pub proof fn lemma_with_bit_round_trip(b: u8, k: u8)
    requires
        k < 8,
    ensures
        with_bit(with_bit(b, k, !nth_bit(b, k)), k, nth_bit(b, k)) == b,
{
    assert((b >> k) & 1u8 == 0u8 || (b >> k) & 1u8 == 1u8) by (bit_vector);
    if nth_bit(b, k) {
        assert((b & !(1u8 << k)) | (1u8 << k) == b) by (bit_vector)
            requires
                k < 8,
                (b >> k) & 1u8 == 1u8,
        ;
    } else {
        assert((b | (1u8 << k)) & !(1u8 << k) == b) by (bit_vector)
            requires
                k < 8,
                (b >> k) & 1u8 == 0u8,
        ;
    }
}

/// A bit index below `size * 8` splits into a byte index below `size`
/// (the high bits) and a bit offset below eight (the low three bits).
pub proof fn lemma_split_location(location: u16, size: u16)
    requires
        (location as int) < (size as int) * 8,
    ensures
        (location >> 3) < size,
        (location >> 3) as int == (location as int) / 8,
        (location & 7) as int == (location as int) % 8,
        (location & 7) < 8,
{
    assert((location >> 3) < size) by (bit_vector)
        requires
            location < size * 8,
    ;
    assert(location >> 3 == location / 8) by (bit_vector);
    assert(location & 7 == location % 8) by (bit_vector);
    assert((location & 7) < 8) by (bit_vector);
}

} // verus!

use vstd::prelude::*;

verus! {

/// Bit `index` of `byte` (0 is the least significant).
pub open spec fn bit_of(byte: u8, index: int) -> bool {
    byte & (1u8 << (index as u8)) != 0
}

/// The place value of bit `i` of a byte: 1, 2, 4, ..., 128.
pub open spec fn place_value(i: int) -> int {
    seq![1int, 2, 4, 8, 16, 32, 64, 128][i]
}

/// Bit `i` is the binary digit of weight 2^i: `byte_to_bits` sends the
/// least significant bit first.
pub proof fn lemma_bit_order(byte: u8, i: int)
    requires
        0 <= i < 8,
    ensures
        bit_of(byte, i) == ((byte as int / place_value(i)) % 2 == 1),
{
    if i == 0 {
        assert((byte & (1u8 << 0u8) != 0) == ((byte / 1) % 2 == 1)) by (bit_vector);
    } else if i == 1 {
        assert((byte & (1u8 << 1u8) != 0) == ((byte / 2) % 2 == 1)) by (bit_vector);
    } else if i == 2 {
        assert((byte & (1u8 << 2u8) != 0) == ((byte / 4) % 2 == 1)) by (bit_vector);
    } else if i == 3 {
        assert((byte & (1u8 << 3u8) != 0) == ((byte / 8) % 2 == 1)) by (bit_vector);
    } else if i == 4 {
        assert((byte & (1u8 << 4u8) != 0) == ((byte / 16) % 2 == 1)) by (bit_vector);
    } else if i == 5 {
        assert((byte & (1u8 << 5u8) != 0) == ((byte / 32) % 2 == 1)) by (bit_vector);
    } else if i == 6 {
        assert((byte & (1u8 << 6u8) != 0) == ((byte / 64) % 2 == 1)) by (bit_vector);
    } else if i == 7 {
        assert((byte & (1u8 << 7u8) != 0) == ((byte / 128) % 2 == 1)) by (bit_vector);
    }
}

/// The bits of `byte` in the order the 1-Wire bus sends them, least
/// significant first.
pub fn byte_to_bits(byte: u8) -> (bits: [bool; 8])
    ensures
        forall|i: int| 0 <= i < 8 ==> bits[i] == #[trigger] bit_of(byte, i),
{
    let mut bits = [false; 8];
    let mut bit: usize = 0;
    while bit < 8
        invariant
            bit <= 8,
            forall|i: int| 0 <= i < bit ==> bits[i] == #[trigger] bit_of(byte, i),
        decreases 8 - bit,
    {
        bits[bit] = byte & (1u8 << (bit as u8)) != 0;
        bit += 1;
    }
    bits
}

/// The byte whose bit `i` is `bits[i]`, as read from the bus least
/// significant bit first.
pub fn byte_from_bits(bits: &[bool; 8]) -> (byte: u8)
    ensures
        forall|i: int| 0 <= i < 8 ==> #[trigger] bit_of(byte, i) == bits[i],
{
    let mut byte: u8 = 0;
    let mut bit: usize = 0;
    assert forall|i: int| 0 <= i < 8 implies !#[trigger] bit_of(byte, i) by {
        let k = i as u8;
        assert(0u8 & (1u8 << k) == 0) by (bit_vector);
    }
    while bit < 8
        invariant
            bit <= 8,
            forall|i: int| 0 <= i < bit ==> #[trigger] bit_of(byte, i) == bits[i],
            forall|i: int| bit <= i < 8 ==> !#[trigger] bit_of(byte, i),
        decreases 8 - bit,
    {
        let ghost old_byte = byte;
        let b = bit as u8;
        if bits[bit] {
            byte |= 1u8 << b;
        }
        proof {
            assert forall|i: int| 0 <= i < 8 implies #[trigger] bit_of(byte, i) == (if i == b {
                bits[bit as int]
            } else {
                bit_of(old_byte, i)
            }) by {
                let k = i as u8;
                if bits[bit as int] {
                    assert((old_byte | (1u8 << b)) & (1u8 << k) != 0 <==> (k == b || old_byte & (1u8 << k) != 0)) by (bit_vector)
                        requires
                            b < 8,
                            k < 8,
                    ;
                }
            }
        }
        bit += 1;
    }
    byte
}

proof fn lemma_single_bit_masks()
    ensures
        1u8 << 0u8 == 1u8,
        1u8 << 1u8 == 2u8,
        1u8 << 2u8 == 4u8,
        1u8 << 3u8 == 8u8,
        1u8 << 4u8 == 16u8,
        1u8 << 5u8 == 32u8,
        1u8 << 6u8 == 64u8,
        1u8 << 7u8 == 128u8,
{
    assert(1u8 << 0u8 == 1u8) by (bit_vector);
    assert(1u8 << 1u8 == 2u8) by (bit_vector);
    assert(1u8 << 2u8 == 4u8) by (bit_vector);
    assert(1u8 << 3u8 == 8u8) by (bit_vector);
    assert(1u8 << 4u8 == 16u8) by (bit_vector);
    assert(1u8 << 5u8 == 32u8) by (bit_vector);
    assert(1u8 << 6u8 == 64u8) by (bit_vector);
    assert(1u8 << 7u8 == 128u8) by (bit_vector);
}

/// Two bytes with the same eight bits are equal; so decoding the bits that
/// `byte_to_bits` sends gives back the byte sent.
pub proof fn lemma_bits_determine_byte(x: u8, y: u8)
    requires
        forall|i: int| 0 <= i < 8 ==> #[trigger] bit_of(x, i) == bit_of(y, i),
    ensures
        x == y,
{
    lemma_single_bit_masks();
    assert(bit_of(x, 0) == bit_of(y, 0));
    assert(bit_of(x, 1) == bit_of(y, 1));
    assert(bit_of(x, 2) == bit_of(y, 2));
    assert(bit_of(x, 3) == bit_of(y, 3));
    assert(bit_of(x, 4) == bit_of(y, 4));
    assert(bit_of(x, 5) == bit_of(y, 5));
    assert(bit_of(x, 6) == bit_of(y, 6));
    assert(bit_of(x, 7) == bit_of(y, 7));
    assert(x == y) by (bit_vector)
        requires
            (x & 1u8 != 0) == (y & 1u8 != 0),
            (x & 2u8 != 0) == (y & 2u8 != 0),
            (x & 4u8 != 0) == (y & 4u8 != 0),
            (x & 8u8 != 0) == (y & 8u8 != 0),
            (x & 16u8 != 0) == (y & 16u8 != 0),
            (x & 32u8 != 0) == (y & 32u8 != 0),
            (x & 64u8 != 0) == (y & 64u8 != 0),
            (x & 128u8 != 0) == (y & 128u8 != 0),
    ;
}

} // verus!

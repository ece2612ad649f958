use vstd::prelude::*;

verus! {

/// One bit of the Dallas/Maxim CRC-8 (reflected polynomial 0x8C): the low bit
/// of `value` is shifted into the register `crc`.
pub open spec fn crc8_bit(crc: u8, value: u8) -> u8 {
    let mix = (crc ^ value) & 0x01;
    let shifted = crc >> 1u8;
    if mix != 0 {
        shifted ^ 0x8c
    } else {
        shifted
    }
}

/// The register after shifting in the low `n` bits of `value`, lowest first.
pub open spec fn crc8_bits(crc: u8, value: u8, n: nat) -> u8
    decreases n,
{
    if n == 0 {
        crc
    } else {
        crc8_bits(crc8_bit(crc, value), value >> 1u8, (n - 1) as nat)
    }
}

/// The register after shifting in all eight bits of `byte`.
pub open spec fn crc8_byte(crc: u8, byte: u8) -> u8 {
    crc8_bits(crc, byte, 8)
}

/// The Dallas/Maxim CRC-8 of `bytes`, starting from 0.
pub open spec fn spec_crc8(bytes: Seq<u8>) -> u8
    decreases bytes.len(),
{
    if bytes.len() == 0 {
        0
    } else {
        crc8_byte(spec_crc8(bytes.drop_last()), bytes.last())
    }
}

/// Computes the Dallas/Maxim CRC-8 of `bytes`.
pub fn crc8(bytes: &[u8]) -> (crc: u8)
    ensures
        crc == spec_crc8(bytes@),
{
    let mut crc: u8 = 0;
    let mut i: usize = 0;
    while i < bytes.len()
        invariant
            i <= bytes.len(),
            crc == spec_crc8(bytes@.take(i as int)),
        decreases bytes.len() - i,
    {
        let byte = bytes[i];
        let ghost start = crc;
        let mut value = byte;
        let mut bit: u8 = 0;
        while bit < 8
            invariant
                bit <= 8,
                crc8_bits(crc, value, (8 - bit) as nat) == crc8_byte(start, byte),
            decreases 8 - bit,
        {
            let mix = (crc ^ value) & 0x01;
            crc >>= 1;
            if mix != 0 {
                crc ^= 0x8c;
            }
            value >>= 1;
            bit += 1;
        }
        assert(bytes@.take(i + 1).drop_last() =~= bytes@.take(i as int));
        i += 1;
    }
    assert(bytes@.take(i as int) =~= bytes@);
    crc
}

/// Shifting a byte into the register is shifting zero bits into the
/// register xor the byte.
proof fn lemma_crc8_bits_fold(c: u8, v: u8, n: nat)
    requires
        n <= 8,
    ensures
        crc8_bits(c, v, n) == crc8_bits(c ^ v, 0, n) ^ (v >> (n as u8)),
    decreases n,
{
    if n > 0 {
        let m = (n - 1) as u8;
        let k = n as u8;
        assert(crc8_bit(c, v) ^ (v >> 1u8) == crc8_bit(c ^ v, 0)) by (bit_vector);
        assert(0u8 >> 1u8 == 0u8) by (bit_vector);
        lemma_crc8_bits_fold(crc8_bit(c, v), v >> 1u8, (n - 1) as nat);
        assert((v >> 1u8) >> m == v >> k) by (bit_vector)
            requires
                m < 8,
                k == m + 1,
        ;
    } else {
        assert(c ^ v ^ (v >> 0u8) == c) by (bit_vector);
    }
}

/// Shifting in zero bits is linear under xor.
proof fn lemma_crc8_zero_bits_linear(d1: u8, d2: u8, n: nat)
    ensures
        crc8_bits(d1 ^ d2, 0, n) == crc8_bits(d1, 0, n) ^ crc8_bits(d2, 0, n),
    decreases n,
{
    if n > 0 {
        assert(crc8_bit(d1 ^ d2, 0) == crc8_bit(d1, 0) ^ crc8_bit(d2, 0)) by (bit_vector);
        assert(0u8 >> 1u8 == 0u8) by (bit_vector);
        lemma_crc8_zero_bits_linear(crc8_bit(d1, 0), crc8_bit(d2, 0), (n - 1) as nat);
    }
}

/// Shifting in zero bits keeps a non-zero register non-zero, and a zero
/// register zero.
proof fn lemma_crc8_zero_bits_nonzero(d: u8, n: nat)
    ensures
        (crc8_bits(d, 0, n) == 0) == (d == 0),
    decreases n,
{
    if n > 0 {
        assert((crc8_bit(d, 0) == 0) == (d == 0)) by (bit_vector);
        assert(0u8 >> 1u8 == 0u8) by (bit_vector);
        lemma_crc8_zero_bits_nonzero(crc8_bit(d, 0), (n - 1) as nat);
    }
}

/// The register after a byte depends only on the register xor the byte, and
/// it is zero exactly when they are equal.
pub proof fn lemma_crc8_byte_of_xor(crc: u8, byte: u8)
    ensures
        crc8_byte(crc, byte) == crc8_byte(crc ^ byte, 0),
        (crc8_byte(crc, byte) == 0) == (crc == byte),
{
    lemma_crc8_bits_fold(crc, byte, 8);
    lemma_crc8_bits_fold(crc ^ byte, 0, 8);
    lemma_crc8_zero_bits_nonzero(crc ^ byte, 8);
    assert(byte >> 8u8 == 0) by (bit_vector);
    assert(0u8 >> 8u8 == 0) by (bit_vector);
    assert(crc ^ byte ^ 0u8 == crc ^ byte) by (bit_vector);
    assert((crc ^ byte == 0) == (crc == byte)) by (bit_vector);
}

/// Byte-wise xor of two sequences of the same length.
pub open spec fn xor_bytes(a: Seq<u8>, b: Seq<u8>) -> Seq<u8> {
    Seq::new(a.len(), |i: int| a[i] ^ b[i])
}

/// The CRC is linear: the CRC of the byte-wise xor of two messages of the same
/// length is the xor of their CRCs.
pub proof fn lemma_crc8_linear(a: Seq<u8>, b: Seq<u8>)
    requires
        a.len() == b.len(),
    ensures
        spec_crc8(xor_bytes(a, b)) == spec_crc8(a) ^ spec_crc8(b),
    decreases a.len(),
{
    if a.len() > 0 {
        let x = xor_bytes(a, b);
        assert(x.drop_last() =~= xor_bytes(a.drop_last(), b.drop_last()));
        lemma_crc8_linear(a.drop_last(), b.drop_last());
        let ca = spec_crc8(a.drop_last());
        let cb = spec_crc8(b.drop_last());
        let va = a.last();
        let vb = b.last();
        lemma_crc8_byte_of_xor(ca ^ cb, va ^ vb);
        lemma_crc8_byte_of_xor(ca, va);
        lemma_crc8_byte_of_xor(cb, vb);
        assert((ca ^ cb) ^ (va ^ vb) == (ca ^ va) ^ (cb ^ vb)) by (bit_vector);
        lemma_crc8_zero_bits_linear(ca ^ va, cb ^ vb, 8);
    } else {
        assert(0u8 ^ 0u8 == 0u8) by (bit_vector);
    }
}

/// A message of zero bytes has CRC zero.
pub proof fn lemma_crc8_of_zeros(n: nat)
    ensures
        spec_crc8(Seq::new(n, |i: int| 0u8)) == 0,
    decreases n,
{
    if n > 0 {
        let z = Seq::new(n, |i: int| 0u8);
        assert(z.drop_last() =~= Seq::new((n - 1) as nat, |i: int| 0u8));
        lemma_crc8_of_zeros((n - 1) as nat);
        lemma_crc8_byte_of_xor(0, 0);
    }
}

proof fn lemma_crc8_single_nonzero_byte(e: Seq<u8>, k: int)
    requires
        0 <= k < e.len(),
        e[k] != 0,
        forall|i: int| 0 <= i < e.len() && i != k ==> e[i] == 0,
    ensures
        spec_crc8(e) != 0,
    decreases e.len(),
{
    let prefix = e.drop_last();
    if k == e.len() - 1 {
        assert(prefix =~= Seq::new(prefix.len(), |i: int| 0u8));
        lemma_crc8_of_zeros(prefix.len());
        lemma_crc8_byte_of_xor(0, e.last());
    } else {
        lemma_crc8_single_nonzero_byte(prefix, k);
        lemma_crc8_byte_of_xor(spec_crc8(prefix), 0);
    }
}

/// Two messages of the same length that differ in a single byte (in
/// particular, in a single bit) have different CRCs.
pub proof fn lemma_crc8_detects_single_byte_errors(a: Seq<u8>, b: Seq<u8>, k: int)
    requires
        a.len() == b.len(),
        0 <= k < a.len(),
        a[k] != b[k],
        forall|i: int| 0 <= i < a.len() && i != k ==> a[i] == b[i],
    ensures
        spec_crc8(a) != spec_crc8(b),
{
    let e = xor_bytes(a, b);
    assert forall|i: int| 0 <= i < e.len() && i != k implies e[i] == 0 by {
        let v = a[i];
        assert(v ^ v == 0) by (bit_vector);
    }
    let (x, y) = (a[k], b[k]);
    assert(x != y ==> x ^ y != 0) by (bit_vector);
    lemma_crc8_single_nonzero_byte(e, k);
    lemma_crc8_linear(a, b);
    let (ca, cb) = (spec_crc8(a), spec_crc8(b));
    assert(ca == cb ==> ca ^ cb == 0) by (bit_vector);
}

/// Appending the CRC of a message to the message gives a CRC of zero; this is
/// how a received block with its check byte is validated.
pub proof fn lemma_crc8_of_checked_block(data: Seq<u8>)
    ensures
        spec_crc8(data.push(spec_crc8(data))) == 0,
{
    let c = spec_crc8(data);
    assert(data.push(c).drop_last() =~= data);
    lemma_crc8_byte_of_xor(c, c);
}

} // verus!

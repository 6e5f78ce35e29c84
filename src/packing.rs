//! Serialisation of channel intensities into the chip's bit stream.
//!
//! The stream carries the 12 significant bits of every channel, most
//! significant bit first, last channel first. Packed into bytes, stream bit
//! `k` lands in byte `k / 8` at bit position `k % 8`.
use vstd::prelude::*;

verus! {

/// Significant bits per channel.
pub const BITS_PER_CHANNEL: usize = 12;

/// Bit `b` of an intensity value.
pub open spec fn channel_bit(v: u16, b: u16) -> bool {
    (v >> b) & 1u16 == 1u16
}

/// Bit `i` of a byte.
pub open spec fn byte_bit(x: u8, i: u8) -> bool {
    (x >> i) & 1u8 == 1u8
}

/// Number of bits in the stream for `n` channels.
pub open spec fn stream_len(n: nat) -> nat {
    12 * n
}

/// Number of bytes the stream for `n` channels packs into.
pub open spec fn packed_len(n: nat) -> nat {
    (12 * n + 7) / 8
}

/// The channel whose bits occupy stream position `k`.
pub open spec fn stream_channel(n: nat, k: int) -> int {
    n - 1 - k / 12
}

/// Which bit of its channel stream position `k` carries.
pub open spec fn stream_bit_index(k: int) -> u16 {
    (11 - k % 12) as u16
}

/// Stream bit `k`; false outside the stream.
pub open spec fn stream_bit(colors: Seq<u16>, k: int) -> bool {
    &&& 0 <= k < stream_len(colors.len())
    &&& channel_bit(colors[stream_channel(colors.len(), k)], stream_bit_index(k))
}

/// Byte `j` of the packed stream with only its low `m` bits filled in.
pub open spec fn byte_upto(colors: Seq<u16>, j: int, m: nat) -> u8
    decreases m,
{
    if m == 0 {
        0u8
    } else {
        let prev = byte_upto(colors, j, (m - 1) as nat);
        if stream_bit(colors, 8 * j + m - 1) {
            prev | (1u8 << ((m - 1) as u8))
        } else {
            prev
        }
    }
}

/// The packed byte stream of a channel buffer.
pub open spec fn packed(colors: Seq<u16>) -> Seq<u8> {
    Seq::new(packed_len(colors.len()), |j: int| byte_upto(colors, j, 8))
}

/// Bit `k` read back from a packed byte stream.
pub open spec fn unpacked_bit(bytes: Seq<u8>, k: int) -> bool {
    byte_bit(bytes[k / 8], (k % 8) as u8)
}

/// The low `m` bits of the 12-bit field that starts at stream position
/// `base`, read back from a packed byte stream.
pub open spec fn unpack_field(bytes: Seq<u8>, base: int, m: nat) -> u16
    decreases m,
{
    if m == 0 {
        0u16
    } else {
        let prev = unpack_field(bytes, base, (m - 1) as nat);
        if unpacked_bit(bytes, base + 11 - (m - 1)) {
            prev | (1u16 << ((m - 1) as u16))
        } else {
            prev
        }
    }
}

/// Channel `c` of an `n`-channel buffer, read back from its packed stream.
pub open spec fn unpack_channel(bytes: Seq<u8>, n: nat, c: int) -> u16 {
    unpack_field(bytes, 12 * (n - 1 - c), 12)
}

/// Returns bit `bit` of `value`.
pub fn channel_bit_value(value: u16, bit: u8) -> (r: bool)
    requires
        bit < 16,
    ensures
        r == channel_bit(value, bit as u16),
{
    (value >> (bit as u16)) & 1u16 == 1u16
}

/// Returns stream bit `k` of a channel buffer.
pub fn stream_bit_value(colors: &[u16], k: usize) -> (r: bool)
    requires
        k < 12 * colors@.len(),
    ensures
        r == stream_bit(colors@, k as int),
{
    let c = colors.len() - 1 - k / BITS_PER_CHANNEL;
    let b = (11 - k % BITS_PER_CHANNEL) as u8;
    channel_bit_value(colors[c], b)
}

/// Packs the 12 significant bits of every channel, most significant bit
/// first and last channel first, into a contiguous byte stream.
pub fn pack_channels(colors: &[u16]) -> (r: Vec<u8>)
    requires
        12 * colors@.len() + 7 <= usize::MAX,
    ensures
        r@ == packed(colors@),
{
    let n = colors.len();
    let nbits = BITS_PER_CHANNEL * n;
    let nbytes = (nbits + 7) / 8;
    let mut out: Vec<u8> = Vec::new();
    let mut j: usize = 0;
    while j < nbytes
        invariant
            n == colors@.len(),
            nbits == 12 * n,
            nbytes == packed_len(n as nat),
            12 * n + 7 <= usize::MAX,
            j <= nbytes,
            out@.len() == j,
            forall|q: int| 0 <= q < j ==> out@[q] == byte_upto(colors@, q, 8),
        decreases nbytes - j,
    {
        assert(8 * j + 7 <= usize::MAX) by (nonlinear_arith)
            requires
                j < nbytes,
                nbytes == (12 * n + 7) / 8,
                12 * n + 7 <= usize::MAX,
        ;
        let mut acc: u8 = 0;
        let mut i: u8 = 0;
        while i < 8
            invariant
                n == colors@.len(),
                nbits == 12 * n,
                8 * j + 7 <= usize::MAX,
                i <= 8,
                acc == byte_upto(colors@, j as int, i as nat),
            decreases 8 - i,
        {
            let k = 8 * j + i as usize;
            if k < nbits && stream_bit_value(colors, k) {
                acc = acc | (1u8 << i);
            }
            i = i + 1;
        }
        out.push(acc);
        j = j + 1;
    }
    assert(out@ =~= packed(colors@));
    out
}

proof fn lemma_byte_bit_or(a: u8, m: u8, i: u8)
    requires
        m < 8,
        i < 8,
    ensures
        byte_bit(a | (1u8 << m), i) == (byte_bit(a, i) || i == m),
        !byte_bit(0u8, i),
{
    assert(((a | (1u8 << m)) >> i) & 1u8 == 1u8 <==> ((a >> i) & 1u8 == 1u8 || i == m))
        by (bit_vector)
        requires
            m < 8,
            i < 8,
    ;
    assert((0u8 >> i) & 1u8 != 1u8) by (bit_vector);
}

proof fn lemma_byte_upto_bits(colors: Seq<u16>, j: int, m: nat)
    requires
        m <= 8,
    ensures
        forall|i: u8|
            i < 8 ==> #[trigger] byte_bit(byte_upto(colors, j, m), i) == (i < m && stream_bit(
                colors,
                8 * j + i,
            )),
    decreases m,
{
    if m == 0 {
        assert forall|i: u8| i < 8 implies !#[trigger] byte_bit(0u8, i) by {
            lemma_byte_bit_or(0u8, 0u8, i);
        }
    } else {
        lemma_byte_upto_bits(colors, j, (m - 1) as nat);
        let prev = byte_upto(colors, j, (m - 1) as nat);
        assert forall|i: u8| i < 8 implies #[trigger] byte_bit(byte_upto(colors, j, m), i) == (i
            < m && stream_bit(colors, 8 * j + i)) by {
            lemma_byte_bit_or(prev, (m - 1) as u8, i);
        }
    }
}

/// Every bit read back from the packed stream is the stream bit at that
/// position; padding after the stream reads as zero.
pub proof fn lemma_packed_bits(colors: Seq<u16>, k: int)
    requires
        0 <= k < 8 * packed_len(colors.len()),
    ensures
        unpacked_bit(packed(colors), k) == stream_bit(colors, k),
{
    lemma_byte_upto_bits(colors, k / 8, 8);
    assert(8 * (k / 8) + (k % 8) == k);
    assert(byte_bit(byte_upto(colors, k / 8, 8), (k % 8) as u8) == stream_bit(colors, k));
}

proof fn lemma_field_step(v: u16, m: u16, m1: u16)
    requires
        m < 12,
        m1 == m + 1,
    ensures
        channel_bit(v, m) ==> (v & !(0xffffu16 << m)) | (1u16 << m) == v & !(0xffffu16 << m1),
        !channel_bit(v, m) ==> (v & !(0xffffu16 << m)) == v & !(0xffffu16 << m1),
{
    assert(((v >> m) & 1u16 == 1u16 ==> (v & !(0xffffu16 << m)) | (1u16 << m) == v & !(0xffffu16
        << m1)) && ((v >> m) & 1u16 != 1u16 ==> (v & !(0xffffu16 << m)) == v & !(0xffffu16 << m1)))
        by (bit_vector)
        requires
            m < 12,
            m1 == m + 1u16,
    ;
}

proof fn lemma_unpack_field(bytes: Seq<u8>, base: int, v: u16, m: nat)
    requires
        m <= 12,
        forall|b: u16|
            b < 12 ==> unpacked_bit(bytes, base + 11 - b) == #[trigger] channel_bit(v, b),
    ensures
        unpack_field(bytes, base, m) == v & !(0xffffu16 << (m as u16)),
    decreases m,
{
    if m == 0 {
        assert(v & !(0xffffu16 << 0u16) == 0u16) by (bit_vector);
    } else {
        lemma_unpack_field(bytes, base, v, (m - 1) as nat);
        let b = (m - 1) as u16;
        assert(channel_bit(v, b) == unpacked_bit(bytes, base + 11 - b));
        lemma_field_step(v, b, m as u16);
    }
}

/// Round trip: for a buffer of `n` channels the packed stream is
/// `ceil(12 n / 8)` bytes long, and unpacking it with the same
/// most-significant-bit-first, last-channel-first convention gives back
/// the low 12 bits of every channel.
pub proof fn lemma_pack_round_trip(colors: Seq<u16>)
    ensures
        packed(colors).len() == packed_len(colors.len()),
        packed_len(colors.len()) * 8 >= stream_len(colors.len()),
        packed_len(colors.len()) * 8 < stream_len(colors.len()) + 8,
        forall|c: int|
            0 <= c < colors.len() ==> #[trigger] unpack_channel(packed(colors), colors.len(), c)
                == colors[c] & 0xfffu16,
{
    let n = colors.len();
    assert forall|c: int| 0 <= c < n implies #[trigger] unpack_channel(packed(colors), n, c)
        == colors[c] & 0xfffu16 by {
        let base = 12 * (n - 1 - c);
        assert forall|b: u16| b < 12 implies unpacked_bit(packed(colors), base + 11 - b)
            == #[trigger] channel_bit(colors[c], b) by {
            let k = base + 11 - b;
            assert(0 <= k < 12 * n) by (nonlinear_arith)
                requires
                    0 <= c < n,
                    base == 12 * (n - 1 - c),
                    b < 12,
                    k == base + 11 - b,
            ;
            lemma_packed_bits(colors, k);
            assert(k / 12 == n - 1 - c);
            assert(k % 12 == 11 - b);
        }
        lemma_unpack_field(packed(colors), base, colors[c], 12);
        assert(!(0xffffu16 << 12u16) == 0xfffu16) by (bit_vector);
    }
}

/// The high 4 bits of a 16-bit intensity are never transmitted: buffers
/// that agree on the low 12 bits of every channel pack identically.
pub proof fn lemma_pack_ignores_high_bits(a: Seq<u16>, b: Seq<u16>)
    requires
        a.len() == b.len(),
        forall|c: int| 0 <= c < a.len() ==> #[trigger] (a[c] & 0xfffu16) == b[c] & 0xfffu16,
    ensures
        packed(a) == packed(b),
{
    assert forall|k: int| #[trigger] stream_bit(a, k) == stream_bit(b, k) by {
        if 0 <= k < stream_len(a.len()) {
            let c = stream_channel(a.len(), k);
            let i = stream_bit_index(k);
            let (x, y) = (a[c], b[c]);
            assert(x & 0xfffu16 == y & 0xfffu16);
            assert((x & 0xfffu16) == (y & 0xfffu16) && i < 12 ==> ((x >> i) & 1u16 == (y >> i)
                & 1u16)) by (bit_vector);
        }
    }
    assert forall|j: int| 0 <= j < packed_len(a.len()) implies #[trigger] packed(a)[j] == packed(
        b,
    )[j] by {
        lemma_byte_upto_equal(a, b, j, 8);
    }
    assert(packed(a) =~= packed(b));
}

proof fn lemma_byte_upto_equal(a: Seq<u16>, b: Seq<u16>, j: int, m: nat)
    requires
        forall|k: int| #[trigger] stream_bit(a, k) == stream_bit(b, k),
    ensures
        byte_upto(a, j, m) == byte_upto(b, j, m),
    decreases m,
{
    if m > 0 {
        lemma_byte_upto_equal(a, b, j, (m - 1) as nat);
        assert(stream_bit(a, 8 * j + m - 1) == stream_bit(b, 8 * j + m - 1));
    }
}

} // verus!

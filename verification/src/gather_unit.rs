use vstd::prelude::*;
use crate::tristimulus::{Tristimulus, zeroed_buffer};

verus! {

/// Owns the canonical accumulation canvas of the pipeline, plus a parallel
/// compensation canvas for Kahan-style summation.
///
/// The compensated additions themselves are floating-point work done by the
/// caller directly on the two buffers. This type owns the buffers' shape and
/// the snapshot byte format through which a render is persisted and resumed:
/// both buffers, accumulation first, as little-endian 32-bit words, three per
/// pixel, in row-major pixel order.
pub struct GatherUnit {
    /// The buffer of tristimulus values.
    pub tristimulus_buffer: Vec<Tristimulus>,

    /// A buffer that contains compensation for rounding errors in summing.
    pub compensation_buffer: Vec<Tristimulus>,
}

/// The four little-endian bytes of a 32-bit word.
pub open spec fn le32(x: u32) -> Seq<u8> {
    seq![
        (x % 0x100) as u8,
        ((x / 0x100) % 0x100) as u8,
        ((x / 0x10000) % 0x100) as u8,
        ((x / 0x1000000) % 0x100) as u8,
    ]
}

/// The 32-bit word with the given little-endian bytes.
pub open spec fn u32_from_le(b0: u8, b1: u8, b2: u8, b3: u8) -> u32 {
    (b0 + b1 * 0x100 + b2 * 0x10000 + b3 * 0x1000000) as u32
}

/// The twelve bytes of one tristimulus triple: x, then y, then z.
pub open spec fn tristimulus_bytes(t: Tristimulus) -> Seq<u8> {
    le32(t.x) + le32(t.y) + le32(t.z)
}

/// The bytes of a whole buffer, pixel-major.
pub open spec fn buffer_bytes(s: Seq<Tristimulus>) -> Seq<u8>
    decreases s.len(),
{
    if s.len() == 0 {
        Seq::empty()
    } else {
        tristimulus_bytes(s.first()) + buffer_bytes(s.drop_first())
    }
}

/// The triple encoded at position `i` of a buffer's byte encoding.
pub open spec fn tristimulus_from_bytes(b: Seq<u8>, i: int) -> Tristimulus {
    Tristimulus {
        x: u32_from_le(b[12 * i], b[12 * i + 1], b[12 * i + 2], b[12 * i + 3]),
        y: u32_from_le(b[12 * i + 4], b[12 * i + 5], b[12 * i + 6], b[12 * i + 7]),
        z: u32_from_le(b[12 * i + 8], b[12 * i + 9], b[12 * i + 10], b[12 * i + 11]),
    }
}

/// The decoding of `n` consecutive triples from a byte string.
pub open spec fn decoded_buffer(b: Seq<u8>, n: nat) -> Seq<Tristimulus> {
    Seq::new(n, |i: int| tristimulus_from_bytes(b, i))
}

/// Round trip at word level: decoding the four little-endian bytes of a
/// word gives the word back.
pub proof fn lemma_le32_round_trip(x: u32)
    ensures
        u32_from_le(le32(x)[0], le32(x)[1], le32(x)[2], le32(x)[3]) == x,
{
    assert(x % 0x100 + ((x / 0x100) % 0x100) * 0x100 + ((x / 0x10000) % 0x100) * 0x10000 + ((x
        / 0x1000000) % 0x100) * 0x1000000 == x) by (bit_vector);
}

/// The byte encoding of a buffer is twelve bytes per triple.
pub proof fn lemma_buffer_bytes_len(s: Seq<Tristimulus>)
    ensures
        buffer_bytes(s).len() == 12 * s.len(),
    decreases s.len(),
{
    if s.len() > 0 {
        lemma_buffer_bytes_len(s.drop_first());
    }
}

/// Within a buffer's encoding, triple `i` sits at byte offset `12 * i`.
pub proof fn lemma_buffer_bytes_index(s: Seq<Tristimulus>, i: int, j: int)
    requires
        0 <= i < s.len(),
        0 <= j < 12,
    ensures
        buffer_bytes(s)[12 * i + j] == tristimulus_bytes(s[i])[j],
    decreases i,
{
    lemma_buffer_bytes_len(s.drop_first());
    if i == 0 {
    } else {
        lemma_buffer_bytes_index(s.drop_first(), i - 1, j);
        assert(s.drop_first()[i - 1] == s[i]);
        assert(buffer_bytes(s)[12 * i + j] == buffer_bytes(s.drop_first())[12 * (i - 1) + j]);
    }
}

/// Round trip at buffer level: decoding a buffer's byte encoding gives the
/// buffer back.
pub proof fn lemma_buffer_round_trip(s: Seq<Tristimulus>)
    ensures
        decoded_buffer(buffer_bytes(s), s.len()) =~= s,
{
    assert forall|i: int| 0 <= i < s.len() implies tristimulus_from_bytes(buffer_bytes(s), i)
        == s[i] by {
        assert forall|j: int| 0 <= j < 12 implies buffer_bytes(s)[12 * i + j] == tristimulus_bytes(
            s[i],
        )[j] by {
            lemma_buffer_bytes_index(s, i, j);
        }
        lemma_le32_round_trip(s[i].x);
        lemma_le32_round_trip(s[i].y);
        lemma_le32_round_trip(s[i].z);
        assert(tristimulus_bytes(s[i])[0] == le32(s[i].x)[0]);
        assert(tristimulus_bytes(s[i])[1] == le32(s[i].x)[1]);
        assert(tristimulus_bytes(s[i])[2] == le32(s[i].x)[2]);
        assert(tristimulus_bytes(s[i])[3] == le32(s[i].x)[3]);
        assert(tristimulus_bytes(s[i])[4] == le32(s[i].y)[0]);
        assert(tristimulus_bytes(s[i])[5] == le32(s[i].y)[1]);
        assert(tristimulus_bytes(s[i])[6] == le32(s[i].y)[2]);
        assert(tristimulus_bytes(s[i])[7] == le32(s[i].y)[3]);
        assert(tristimulus_bytes(s[i])[8] == le32(s[i].z)[0]);
        assert(tristimulus_bytes(s[i])[9] == le32(s[i].z)[1]);
        assert(tristimulus_bytes(s[i])[10] == le32(s[i].z)[2]);
        assert(tristimulus_bytes(s[i])[11] == le32(s[i].z)[3]);
    }
}

/// Round-trip persistence: the snapshot of a unit decodes back to the very
/// buffers that were saved — the accumulation buffer from the front of the
/// byte string, the compensation buffer from the rest — so saving and then
/// restoring reproduces the unit bit for bit.
pub proof fn lemma_snapshot_round_trip(g: GatherUnit)
    requires
        g.wf(),
    ensures
        decoded_buffer(g.snapshot_spec(), g.tristimulus_buffer@.len()) =~= g.tristimulus_buffer@,
        decoded_buffer(
            g.snapshot_spec().skip(12 * g.tristimulus_buffer@.len() as int),
            g.tristimulus_buffer@.len(),
        ) =~= g.compensation_buffer@,
{
    let acc = g.tristimulus_buffer@;
    let comp = g.compensation_buffer@;
    let n = acc.len() as int;
    lemma_buffer_bytes_len(acc);
    lemma_buffer_bytes_len(comp);
    lemma_buffer_round_trip(acc);
    lemma_buffer_round_trip(comp);
    assert(g.snapshot_spec().skip(12 * n) =~= buffer_bytes(comp));
    assert forall|k: int| 0 <= k < 12 * n implies #[trigger] g.snapshot_spec()[k] == buffer_bytes(
        acc,
    )[k] by {}
    assert forall|i: int| 0 <= i < n implies tristimulus_from_bytes(g.snapshot_spec(), i)
        == tristimulus_from_bytes(buffer_bytes(acc), i) by {
        assert(0 <= 12 * i && 12 * i + 11 < 12 * n);
    }
}

impl GatherUnit {
    /// Both canvases have the same pixel count.
    pub open spec fn wf(self) -> bool {
        self.compensation_buffer@.len() == self.tristimulus_buffer@.len()
    }

    /// The snapshot encoding of this unit: the accumulation buffer's bytes,
    /// then the compensation buffer's bytes.
    pub open spec fn snapshot_spec(self) -> Seq<u8> {
        buffer_bytes(self.tristimulus_buffer@) + buffer_bytes(self.compensation_buffer@)
    }

    /// Constructs a new GatherUnit that will gather a canvas of the
    /// specified size, starting from an all-zero accumulation. A previously
    /// saved snapshot is restored by the caller through
    /// [`GatherUnit::restore_from_bytes`].
    pub fn new(width: u32, height: u32) -> (r: GatherUnit)
        requires
            width * height <= usize::MAX,
        ensures
            r.wf(),
            r.tristimulus_buffer@.len() == width * height,
            forall|i: int|
                0 <= i < r.tristimulus_buffer@.len() ==> (#[trigger] r.tristimulus_buffer@[i]).is_zero(),
            forall|i: int|
                0 <= i < r.compensation_buffer@.len() ==> (#[trigger] r.compensation_buffer@[i]).is_zero(),
    {
        let sz: usize = (width as usize) * (height as usize);
        GatherUnit { tristimulus_buffer: zeroed_buffer(sz), compensation_buffer: zeroed_buffer(sz) }
    }

    /// Serializes both buffers to the snapshot byte format, so that
    /// rendering can be resumed later. The caller writes the bytes to
    /// durable storage.
    pub fn snapshot_bytes(&self) -> (r: Vec<u8>)
        requires
            self.wf(),
            self.tristimulus_buffer@.len() * 24 <= usize::MAX,
        ensures
            r@ == self.snapshot_spec(),
    {
        proof {
            lemma_buffer_bytes_len(self.tristimulus_buffer@);
            lemma_buffer_bytes_len(self.compensation_buffer@);
        }
        let mut out: Vec<u8> = Vec::new();
        encode_buffer(&self.tristimulus_buffer, &mut out);
        encode_buffer(&self.compensation_buffer, &mut out);
        assert(out@ =~= self.snapshot_spec());
        out
    }

    /// Restores both buffers from a snapshot, to resume rendering.
    ///
    /// A snapshot of the wrong length (for example from a canvas of another
    /// size, or a truncated file) is rejected and the unit is left
    /// unchanged; the caller then simply starts from what the unit already
    /// holds. Returns whether the snapshot was applied.
    pub fn restore_from_bytes(&mut self, bytes: &Vec<u8>) -> (applied: bool)
        ensures
            final(self).tristimulus_buffer@.len() == old(self).tristimulus_buffer@.len(),
            final(self).compensation_buffer@.len() == old(self).compensation_buffer@.len(),
            applied <==> old(self).wf() && bytes@.len() == 24 * old(
                self,
            ).tristimulus_buffer@.len(),
            applied ==> final(self).tristimulus_buffer@ =~= decoded_buffer(
                bytes@,
                old(self).tristimulus_buffer@.len(),
            ),
            applied ==> final(self).compensation_buffer@ =~= decoded_buffer(
                bytes@.skip(12 * old(self).tristimulus_buffer@.len() as int),
                old(self).tristimulus_buffer@.len(),
            ),
            !applied ==> *final(self) == *old(self),
    {
        let sz = self.tristimulus_buffer.len();
        let total = bytes.len();
        if self.compensation_buffer.len() != sz || total % 24 != 0 || total / 24 != sz {
            return false;
        }
        decode_buffer(bytes, 0, &mut self.tristimulus_buffer);
        decode_buffer(bytes, 12 * sz, &mut self.compensation_buffer);
        assert(bytes@.skip(0) =~= bytes@);
        true
    }
}

/// Appends the byte encoding of `buf` to `out`.
fn encode_buffer(buf: &Vec<Tristimulus>, out: &mut Vec<u8>)
    requires
        old(out)@.len() + 12 * buf@.len() <= usize::MAX,
    ensures
        final(out)@ == old(out)@ + buffer_bytes(buf@),
{
    let len = buf.len();
    let mut n: usize = 0;
    while n < len
        invariant
            n <= len,
            buf@.len() == len,
            old(out)@.len() + 12 * len <= usize::MAX,
            out@.len() == old(out)@.len() + 12 * n,
            out@ == old(out)@ + buffer_bytes(buf@.take(n as int)),
        decreases len - n,
    {
        let t = buf[n];
        push_le32(out, t.x);
        push_le32(out, t.y);
        push_le32(out, t.z);
        proof {
            lemma_buffer_bytes_snoc(buf@, n as int);
            lemma_buffer_bytes_len(buf@.take(n as int + 1));
            assert(out@ =~= old(out)@ + buffer_bytes(buf@.take(n as int + 1)));
        }
        n = n + 1;
    }
    assert(buf@.take(len as int) =~= buf@);
}

/// Encoding a concatenation concatenates the encodings.
pub proof fn lemma_buffer_bytes_concat(a: Seq<Tristimulus>, b: Seq<Tristimulus>)
    ensures
        buffer_bytes(a + b) =~= buffer_bytes(a) + buffer_bytes(b),
    decreases a.len(),
{
    if a.len() == 0 {
        assert(a + b =~= b);
    } else {
        lemma_buffer_bytes_concat(a.drop_first(), b);
        assert((a + b).drop_first() =~= a.drop_first() + b);
        assert((a + b).first() == a.first());
        assert(buffer_bytes(a + b) =~= tristimulus_bytes(a.first()) + (buffer_bytes(a.drop_first())
            + buffer_bytes(b)));
    }
}

/// The encoding of a single triple is its twelve bytes.
proof fn lemma_buffer_bytes_singleton(t: Tristimulus)
    ensures
        buffer_bytes(seq![t]) =~= tristimulus_bytes(t),
{
    assert(seq![t].drop_first() =~= Seq::empty());
    assert(seq![t].first() == t);
    assert(tristimulus_bytes(t) + buffer_bytes(Seq::empty()) =~= tristimulus_bytes(t));
}

/// Encoding one more triple appends its twelve bytes.
proof fn lemma_buffer_bytes_snoc(s: Seq<Tristimulus>, n: int)
    requires
        0 <= n < s.len(),
    ensures
        buffer_bytes(s.take(n + 1)) =~= buffer_bytes(s.take(n)) + tristimulus_bytes(s[n]),
{
    assert(s.take(n + 1) =~= s.take(n) + seq![s[n]]);
    lemma_buffer_bytes_concat(s.take(n), seq![s[n]]);
    lemma_buffer_bytes_singleton(s[n]);
}

/// Appends the four little-endian bytes of `x`.
fn push_le32(out: &mut Vec<u8>, x: u32)
    requires
        old(out)@.len() + 4 <= usize::MAX,
    ensures
        final(out)@ == old(out)@ + le32(x),
{
    out.push((x % 0x100) as u8);
    out.push(((x / 0x100) % 0x100) as u8);
    out.push(((x / 0x10000) % 0x100) as u8);
    out.push(((x / 0x1000000) % 0x100) as u8);
    assert(out@ =~= old(out)@ + le32(x));
}

/// Overwrites `buf` with the triples decoded from `bytes` starting at byte
/// offset `start`.
fn decode_buffer(bytes: &Vec<u8>, start: usize, buf: &mut Vec<Tristimulus>)
    requires
        start + 12 * old(buf)@.len() <= bytes@.len(),
    ensures
        final(buf)@.len() == old(buf)@.len(),
        final(buf)@ =~= decoded_buffer(bytes@.skip(start as int), old(buf)@.len()),
{
    let total = bytes.len();
    let len = buf.len();
    let mut n: usize = 0;
    while n < len
        invariant
            n <= len,
            start + 12 * len <= total,
            total == bytes@.len(),
            buf@.len() == len,
            forall|i: int|
                0 <= i < n ==> buf@[i] == tristimulus_from_bytes(bytes@.skip(start as int), i),
        decreases len - n,
    {
        let base = start + 12 * n;
        let x = read_le32(bytes, base);
        let y = read_le32(bytes, base + 4);
        let z = read_le32(bytes, base + 8);
        buf.set(n, Tristimulus { x, y, z });
        proof {
            let sk = bytes@.skip(start as int);
            assert(sk[12 * n] == bytes@[start + 12 * n]);
            assert(sk[12 * n + 1] == bytes@[start + 12 * n + 1]);
            assert(sk[12 * n + 2] == bytes@[start + 12 * n + 2]);
            assert(sk[12 * n + 3] == bytes@[start + 12 * n + 3]);
            assert(sk[12 * n + 4] == bytes@[start + 12 * n + 4]);
            assert(sk[12 * n + 5] == bytes@[start + 12 * n + 5]);
            assert(sk[12 * n + 6] == bytes@[start + 12 * n + 6]);
            assert(sk[12 * n + 7] == bytes@[start + 12 * n + 7]);
            assert(sk[12 * n + 8] == bytes@[start + 12 * n + 8]);
            assert(sk[12 * n + 9] == bytes@[start + 12 * n + 9]);
            assert(sk[12 * n + 10] == bytes@[start + 12 * n + 10]);
            assert(sk[12 * n + 11] == bytes@[start + 12 * n + 11]);
            assert(buf@[n as int] == tristimulus_from_bytes(sk, n as int));
        }
        n = n + 1;
    }
    assert(buf@ =~= decoded_buffer(bytes@.skip(start as int), len as nat));
}

/// Reads the 32-bit word whose little-endian bytes sit at `base`.
fn read_le32(bytes: &Vec<u8>, base: usize) -> (r: u32)
    requires
        base + 4 <= bytes@.len(),
    ensures
        r == u32_from_le(bytes@[base as int], bytes@[base + 1], bytes@[base + 2], bytes@[base + 3]),
{
    let total = bytes.len();
    assert(base + 4 <= total);
    let b0 = bytes[base] as u32;
    let b1 = bytes[base + 1] as u32;
    let b2 = bytes[base + 2] as u32;
    let b3 = bytes[base + 3] as u32;
    b0 + b1 * 0x100 + b2 * 0x10000 + b3 * 0x1000000
}

} // verus!

//! Little-endian encoding of the 32-bit words and bytes that make up the
//! firmware's fixed-layout records.
use vstd::prelude::*;

verus! {

/// The four bytes of `x`, least significant first.
pub open spec fn le_bytes(x: u32) -> Seq<u8> {
    seq![
        (x & 0xff) as u8,
        ((x >> 8u32) & 0xff) as u8,
        ((x >> 16u32) & 0xff) as u8,
        ((x >> 24u32) & 0xff) as u8,
    ]
}

/// The word whose little-endian bytes are `b[0..4]`.
pub open spec fn le_value(b: Seq<u8>) -> u32
    recommends
        b.len() >= 4,
{
    (b[0] as u32) | ((b[1] as u32) << 8u32) | ((b[2] as u32) << 16u32) | ((b[3] as u32) << 24u32)
}

/// The little-endian bytes of a sequence of words, word after word.
pub open spec fn words_le(w: Seq<u32>) -> Seq<u8>
    decreases w.len(),
{
    if w.len() == 0 {
        Seq::empty()
    } else {
        words_le(w.drop_last()) + le_bytes(w.last())
    }
}

/// The words whose little-endian bytes are `b`, four bytes to a word.
pub open spec fn le_words(b: Seq<u8>) -> Seq<u32> {
    Seq::new(b.len() / 4, |i: int| le_value(b.subrange(4 * i, 4 * i + 4)))
}

pub proof fn lemma_le_value_of_bytes(x: u32)
    ensures
        le_value(le_bytes(x)) == x,
{
    let b0 = (x & 0xff) as u8;
    let b1 = ((x >> 8u32) & 0xff) as u8;
    let b2 = ((x >> 16u32) & 0xff) as u8;
    let b3 = ((x >> 24u32) & 0xff) as u8;
    assert((b0 as u32) | ((b1 as u32) << 8u32) | ((b2 as u32) << 16u32) | ((b3 as u32) << 24u32)
        == x) by (bit_vector)
        requires
            b0 == (x & 0xff) as u8,
            b1 == ((x >> 8u32) & 0xff) as u8,
            b2 == ((x >> 16u32) & 0xff) as u8,
            b3 == ((x >> 24u32) & 0xff) as u8,
    ;
}

pub proof fn lemma_le_bytes_of_value(b: Seq<u8>)
    requires
        b.len() == 4,
    ensures
        le_bytes(le_value(b)) == b,
{
    let (b0, b1, b2, b3) = (b[0], b[1], b[2], b[3]);
    let x = le_value(b);
    assert(x == (b0 as u32) | ((b1 as u32) << 8u32) | ((b2 as u32) << 16u32) | ((b3 as u32) << 24u32));
    assert(b0 == (x & 0xff) as u8 && b1 == ((x >> 8u32) & 0xff) as u8 && b2 == ((x >> 16u32)
        & 0xff) as u8 && b3 == ((x >> 24u32) & 0xff) as u8) by (bit_vector)
        requires
            x == (b0 as u32) | ((b1 as u32) << 8u32) | ((b2 as u32) << 16u32) | ((b3 as u32)
                << 24u32),
    ;
    assert(le_bytes(x) =~= b);
}

pub proof fn lemma_words_le_len(w: Seq<u32>)
    ensures
        words_le(w).len() == 4 * w.len(),
    decreases w.len(),
{
    if w.len() > 0 {
        lemma_words_le_len(w.drop_last());
    }
}

/// Word `i` of `w` stands at bytes `4i .. 4i + 4` of its encoding.
pub proof fn lemma_words_le_index(w: Seq<u32>, i: int)
    requires
        0 <= i < w.len(),
    ensures
        words_le(w).subrange(4 * i, 4 * i + 4) == le_bytes(w[i]),
    decreases w.len(),
{
    lemma_words_le_len(w.drop_last());
    let head = words_le(w.drop_last());
    if i == w.len() - 1 {
        assert(words_le(w).subrange(4 * i, 4 * i + 4) =~= le_bytes(w[i]));
    } else {
        lemma_words_le_index(w.drop_last(), i);
        assert(words_le(w).subrange(4 * i, 4 * i + 4) =~= head.subrange(4 * i, 4 * i + 4));
    }
}

/// Decoding the encoding of a word sequence gives the words back.
pub proof fn lemma_le_words_of_words(w: Seq<u32>)
    ensures
        le_words(words_le(w)) == w,
{
    lemma_words_le_len(w);
    assert forall|i: int| 0 <= i < w.len() implies #[trigger] le_words(words_le(w))[i] == w[i] by {
        lemma_words_le_index(w, i);
        lemma_le_value_of_bytes(w[i]);
    }
    assert(le_words(words_le(w)) =~= w);
}

/// Encoding the decoding of a whole number of words gives the bytes back.
pub proof fn lemma_words_of_le_words(b: Seq<u8>)
    requires
        b.len() % 4 == 0,
    ensures
        words_le(le_words(b)) == b,
    decreases b.len(),
{
    if b.len() > 0 {
        let n = b.len() - 4;
        let front = b.subrange(0, n);
        lemma_words_of_le_words(front);
        let w = le_words(b);
        assert(w.drop_last() =~= le_words(front)) by {
            assert forall|i: int| 0 <= i < w.len() - 1 implies w.drop_last()[i] == le_words(
                front,
            )[i] by {
                assert(b.subrange(4 * i, 4 * i + 4) =~= front.subrange(4 * i, 4 * i + 4));
            }
        }
        lemma_le_bytes_of_value(b.subrange(n, n + 4));
        assert(words_le(w) =~= b);
    }
}

/// Appends the little-endian bytes of `x` to `out`.
pub fn push_le(out: &mut Vec<u8>, x: u32)
    ensures
        final(out)@ == old(out)@ + le_bytes(x),
{
    out.push((x & 0xff) as u8);
    out.push(((x >> 8u32) & 0xff) as u8);
    out.push(((x >> 16u32) & 0xff) as u8);
    out.push(((x >> 24u32) & 0xff) as u8);
    assert(final(out)@ =~= old(out)@ + le_bytes(x));
}

/// The word stored little-endian at `b[at .. at + 4]`.
pub fn read_le(b: &[u8], at: usize) -> (r: u32)
    requires
        at + 4 <= b@.len(),
    ensures
        r == le_value(b@.subrange(at as int, at + 4)),
{
    (b[at] as u32) | ((b[at + 1] as u32) << 8u32) | ((b[at + 2] as u32) << 16u32) | ((b[at + 3]
        as u32) << 24u32)
}

/// The `n` words stored little-endian from `b[at]` on.
pub fn read_words(b: &[u8], at: usize, n: usize) -> (r: Vec<u32>)
    requires
        at + 4 * n <= b@.len(),
    ensures
        r@ == le_words(b@.subrange(at as int, at + 4 * n)),
        r@.len() == n,
{
    let ghost part = b@.subrange(at as int, at + 4 * n);
    let mut out: Vec<u32> = Vec::new();
    let mut i: usize = 0;
    while i < n
        invariant
            at + 4 * n <= b@.len(),
            b@.len() == b.len(),
            part == b@.subrange(at as int, at + 4 * n),
            i <= n,
            out@ == le_words(part).subrange(0, i as int),
        decreases n - i,
    {
        let x = read_le(b, at + 4 * i);
        assert(b@.subrange(at + 4 * i, at + 4 * i + 4) =~= part.subrange(4 * i, 4 * i + 4));
        out.push(x);
        assert(out@ =~= le_words(part).subrange(0, i + 1));
        i = i + 1;
    }
    assert(out@ =~= le_words(part));
    out
}

/// The little-endian bytes of a sequence of words.
pub fn encode_words(w: &[u32]) -> (r: Vec<u8>)
    ensures
        r@ == words_le(w@),
{
    let mut out: Vec<u8> = Vec::new();
    let mut i: usize = 0;
    while i < w.len()
        invariant
            i <= w@.len(),
            out@ == words_le(w@.subrange(0, i as int)),
        decreases w@.len() - i,
    {
        assert(w@.subrange(0, i + 1).drop_last() =~= w@.subrange(0, i as int));
        push_le(&mut out, w[i]);
        i = i + 1;
    }
    assert(w@.subrange(0, i as int) =~= w@);
    out
}

/// The words of `b`, four little-endian bytes to a word; `None` when the
/// length of `b` is not a whole number of words.
pub fn decode_words(b: &[u8]) -> (r: Option<Vec<u32>>)
    ensures
        r.is_some() <==> b@.len() % 4 == 0,
        r.is_some() ==> r.unwrap()@ == le_words(b@),
{
    if b.len() % 4 != 0 {
        return None;
    }
    let r = read_words(b, 0, b.len() / 4);
    assert(b@.subrange(0, 4 * (b.len() / 4) as int) =~= b@);
    Some(r)
}

/// The byte that stands for a `bool` in target memory.
pub open spec fn flag_byte(f: bool) -> u8 {
    if f {
        1
    } else {
        0
    }
}

pub fn to_flag_byte(f: bool) -> (r: u8)
    ensures
        r == flag_byte(f),
{
    if f {
        1
    } else {
        0
    }
}

/// The `bool` stored as byte `b`; `None` for a byte that is neither 0 nor 1.
pub fn from_flag_byte(b: u8) -> (r: Option<bool>)
    ensures
        r.is_some() <==> b <= 1,
        r.is_some() ==> flag_byte(r.unwrap()) == b,
{
    if b == 0 {
        Some(false)
    } else if b == 1 {
        Some(true)
    } else {
        None
    }
}

/// Two halfwords packed into one word, `lo` in the low half, as a `repr(C)`
/// pair of `u16` lies in little-endian memory.
pub open spec fn pack_halves(lo: u16, hi: u16) -> u32 {
    (lo as u32) | ((hi as u32) << 16u32)
}

pub fn pack_u16_pair(lo: u16, hi: u16) -> (r: u32)
    ensures
        r == pack_halves(lo, hi),
{
    (lo as u32) | ((hi as u32) << 16u32)
}

pub fn unpack_u16_pair(w: u32) -> (r: (u16, u16))
    ensures
        pack_halves(r.0, r.1) == w,
{
    let lo = (w & 0xffff) as u16;
    let hi = (w >> 16u32) as u16;
    assert(((lo as u32) | ((hi as u32) << 16u32)) == w) by (bit_vector)
        requires
            lo == (w & 0xffff) as u16,
            hi == (w >> 16u32) as u16,
    ;
    (lo, hi)
}

} // verus!

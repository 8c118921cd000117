//! Storage encoding of embeddings. An embedding element is a 32-bit float
//! held by its bit pattern (`f32::to_bits`); it is stored as four
//! little-endian bytes.
use vstd::prelude::*;

verus! {

/// The four little-endian bytes of a word.
pub open spec fn word_bytes(x: u32) -> Seq<u8> {
    seq![(x & 0xff) as u8, ((x >> 8) & 0xff) as u8, ((x >> 16) & 0xff) as u8, ((x >> 24) & 0xff) as u8]
}

/// The word whose little-endian bytes are `b0, b1, b2, b3`.
pub open spec fn word_of(b0: u8, b1: u8, b2: u8, b3: u8) -> u32 {
    (b0 as u32) | ((b1 as u32) << 8) | ((b2 as u32) << 16) | ((b3 as u32) << 24)
}

/// The byte run storing an embedding: each element's bytes in turn.
pub open spec fn encoded(v: Seq<u32>) -> Seq<u8>
    decreases v.len(),
{
    if v.len() == 0 {
        Seq::empty()
    } else {
        encoded(v.drop_last()) + word_bytes(v.last())
    }
}

/// The embedding read back from a byte run: one element for each whole
/// group of four bytes; a trailing partial group is dropped.
pub open spec fn decoded(b: Seq<u8>) -> Seq<u32> {
    Seq::new(b.len() / 4, |i: int| word_of(b[4 * i], b[4 * i + 1], b[4 * i + 2], b[4 * i + 3]))
}

proof fn lemma_word_round_trip(x: u32)
    ensures
        word_of(word_bytes(x)[0], word_bytes(x)[1], word_bytes(x)[2], word_bytes(x)[3]) == x,
{
    assert(((((x & 0xff) as u8) as u32) | (((((x >> 8) & 0xff) as u8) as u32) << 8) | (((((x >> 16) & 0xff) as u8) as u32) << 16) | (((((x >> 24) & 0xff) as u8) as u32) << 24)) == x) by (bit_vector);
}

proof fn lemma_encoded_index(v: Seq<u32>)
    ensures
        encoded(v).len() == 4 * v.len(),
        forall|i: int, k: int| 0 <= i < v.len() && 0 <= k < 4 ==> #[trigger] encoded(v)[4 * i + k] == word_bytes(v[i])[k],
    decreases v.len(),
{
    if v.len() > 0 {
        let w = v.drop_last();
        lemma_encoded_index(w);
        assert forall|i: int, k: int| 0 <= i < v.len() && 0 <= k < 4 implies #[trigger] encoded(v)[4 * i + k] == word_bytes(v[i])[k] by {
            if i < w.len() {
                assert(w[i] == v[i]);
                assert(encoded(w)[4 * i + k] == word_bytes(w[i])[k]);
            }
        }
    }
}

/// Decoding what encoding gave yields the embedding back.
pub proof fn lemma_blob_round_trip(v: Seq<u32>)
    ensures
        decoded(encoded(v)) == v,
{
    lemma_encoded_index(v);
    let b = encoded(v);
    assert forall|i: int| 0 <= i < v.len() implies #[trigger] decoded(b)[i] == v[i] by {
        assert(b[4 * i + 0] == word_bytes(v[i])[0]);
        assert(b[4 * i + 1] == word_bytes(v[i])[1]);
        assert(b[4 * i + 2] == word_bytes(v[i])[2]);
        assert(b[4 * i + 3] == word_bytes(v[i])[3]);
        lemma_word_round_trip(v[i]);
    }
    assert(decoded(b) =~= v);
}

proof fn lemma_bytes_round_trip(b0: u8, b1: u8, b2: u8, b3: u8)
    ensures
        word_bytes(word_of(b0, b1, b2, b3)) == seq![b0, b1, b2, b3],
{
    let x = word_of(b0, b1, b2, b3);
    assert(((((b0 as u32) | ((b1 as u32) << 8) | ((b2 as u32) << 16) | ((b3 as u32) << 24)) & 0xff) as u8) == b0) by (bit_vector);
    assert((((((b0 as u32) | ((b1 as u32) << 8) | ((b2 as u32) << 16) | ((b3 as u32) << 24)) >> 8) & 0xff) as u8) == b1) by (bit_vector);
    assert((((((b0 as u32) | ((b1 as u32) << 8) | ((b2 as u32) << 16) | ((b3 as u32) << 24)) >> 16) & 0xff) as u8) == b2) by (bit_vector);
    assert((((((b0 as u32) | ((b1 as u32) << 8) | ((b2 as u32) << 16) | ((b3 as u32) << 24)) >> 24) & 0xff) as u8) == b3) by (bit_vector);
    assert(word_bytes(x) =~= seq![b0, b1, b2, b3]);
}

/// Encoding what was read from a byte run of whole groups of four gives
/// that byte run back.
pub proof fn lemma_blob_reencode(b: Seq<u8>)
    requires
        b.len() % 4 == 0,
    ensures
        encoded(decoded(b)) == b,
{
    let v = decoded(b);
    lemma_encoded_index(v);
    let e = encoded(v);
    assert(e.len() == b.len());
    assert forall|j: int| 0 <= j < b.len() implies #[trigger] e[j] == b[j] by {
        let i = j / 4;
        let k = j % 4;
        assert(j == 4 * i + k && 0 <= k < 4 && 0 <= i < v.len()) by (nonlinear_arith)
            requires
                0 <= j < b.len(),
                b.len() % 4 == 0,
                v.len() == b.len() / 4,
                i == j / 4,
                k == j % 4,
        ;
        assert(4 * i + 3 < b.len()) by (nonlinear_arith)
            requires
                0 <= i < v.len(),
                v.len() == b.len() / 4,
                b.len() % 4 == 0,
        ;
        lemma_bytes_round_trip(b[4 * i], b[4 * i + 1], b[4 * i + 2], b[4 * i + 3]);
        assert(e[4 * i + k] == word_bytes(v[i])[k]);
    }
    assert(e =~= b);
}

/// Only whole groups of four bytes count: a trailing partial element is
/// dropped, and the rest reads as it would alone.
pub proof fn lemma_blob_partial_tail(b: Seq<u8>)
    ensures
        decoded(b) == decoded(b.take(b.len() - b.len() % 4)),
        decoded(b).len() == b.len() / 4,
{
    let t = b.take(b.len() - b.len() % 4);
    assert(t.len() / 4 == b.len() / 4);
    assert forall|i: int| 0 <= i < b.len() / 4 implies #[trigger] decoded(b)[i] == decoded(t)[i] by {
        assert(4 * i + 3 < t.len());
    }
    assert(decoded(b) =~= decoded(t));
}

/// The byte run storing an embedding given by its elements' bit patterns.
pub fn f32_bits_to_blob(vector: &Vec<u32>) -> (r: Vec<u8>)
    requires
        vector@.len() <= usize::MAX / 4,
    ensures
        r@ == encoded(vector@),
{
    let mut bytes: Vec<u8> = Vec::new();
    let mut i: usize = 0;
    while i < vector.len()
        invariant
            i <= vector@.len(),
            bytes@ == encoded(vector@.take(i as int)),
        decreases vector@.len() - i,
    {
        let x = vector[i];
        bytes.push((x & 0xff) as u8);
        bytes.push(((x >> 8) & 0xff) as u8);
        bytes.push(((x >> 16) & 0xff) as u8);
        bytes.push(((x >> 24) & 0xff) as u8);
        proof {
            let t = vector@.take(i + 1);
            assert(t.drop_last() =~= vector@.take(i as int));
            assert(t.last() == x);
        }
        i = i + 1;
        assert(bytes@ =~= encoded(vector@.take(i as int)));
    }
    assert(vector@.take(i as int) =~= vector@);
    bytes
}

/// The bit patterns of the embedding stored in a byte run.
pub fn blob_to_f32_bits(blob: &Vec<u8>) -> (r: Vec<u32>)
    ensures
        r@ == decoded(blob@),
{
    let mut out: Vec<u32> = Vec::new();
    let len = blob.len();
    let n = len / 4;
    let mut i: usize = 0;
    while i < n
        invariant
            len == blob@.len(),
            n == blob@.len() / 4,
            i <= n,
            out@ == decoded(blob@).take(i as int),
        decreases n - i,
    {
        assert(4 * i + 4 <= len) by (nonlinear_arith)
            requires
                i < n,
                n == len / 4,
        ;
        let j = 4 * i;
        let w = (blob[j] as u32) | ((blob[j + 1] as u32) << 8) | ((blob[j + 2] as u32) << 16) | ((blob[j + 3] as u32) << 24);
        out.push(w);
        i = i + 1;
        assert(out@ =~= decoded(blob@).take(i as int));
    }
    assert(decoded(blob@).take(n as int) =~= decoded(blob@));
    out
}

} // verus!

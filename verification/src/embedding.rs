//! Embeddings: their byte format on the wire and the similarity between two.
//!
//! The arithmetic of a similarity is not done here. A caller hands in a
//! kernel, a function from two vectors of equal, positive length, neither of
//! them all zero, to a value; [`cosine_similarity`] decides when the kernel is
//! asked at all and what leaves it.

use crate::scalar::Scalar;
use vstd::prelude::*;

verus! {

/// An embedding could not be read from bytes.
#[derive(Clone, Copy, Debug, PartialEq, Eq, Structural)]
pub enum EmbeddingError {
    /// The number of bytes is no multiple of four.
    TrailingBytes { length: usize },
}

/// The four bytes of a pattern, least significant first.
pub open spec fn word_bytes(bits: u32) -> Seq<u8> {
    seq![
        (bits % 256) as u8,
        ((bits / 256) % 256) as u8,
        ((bits / 65536) % 256) as u8,
        (bits / 16777216) as u8,
    ]
}

/// The pattern of four bytes, least significant first.
pub open spec fn word_of(b0: u8, b1: u8, b2: u8, b3: u8) -> u32 {
    (b0 + b1 * 256 + b2 * 65536 + b3 * 16777216) as u32
}

/// An embedding on the wire: four bytes for each value, little-endian, one
/// value after the other.
pub open spec fn encoded(values: Seq<Scalar>) -> Seq<u8> {
    Seq::new(4 * values.len(), |i: int| word_bytes(values[i / 4].bits)[i % 4])
}

/// The values of an embedding on the wire; bytes beyond the last multiple of
/// four stand for nothing.
pub open spec fn decoded(bytes: Seq<u8>) -> Seq<Scalar> {
    Seq::new(
        bytes.len() / 4,
        |i: int|
            Scalar {
                bits: word_of(bytes[4 * i], bytes[4 * i + 1], bytes[4 * i + 2], bytes[4 * i + 3]),
            },
    )
}

/// The bytes of an embedding: every value as four bytes, little-endian.
pub fn embedding_to_bytes(embedding: &Vec<Scalar>) -> (bytes: Vec<u8>)
    ensures
        bytes@ == encoded(embedding@),
        bytes@.len() == 4 * embedding@.len(),
{
    let mut bytes: Vec<u8> = Vec::new();
    let mut i: usize = 0;
    while i < embedding.len()
        invariant
            i <= embedding.len(),
            bytes@.len() == 4 * i,
            forall|j: int|
                0 <= j < 4 * i ==> #[trigger] bytes@[j] == word_bytes(embedding@[j / 4].bits)[j
                    % 4],
        decreases embedding.len() - i,
    {
        let bits = embedding[i].bits;
        let ghost before = bytes@;
        bytes.push((bits % 256) as u8);
        bytes.push(((bits / 256) % 256) as u8);
        bytes.push(((bits / 65536) % 256) as u8);
        bytes.push((bits / 16777216) as u8);
        proof {
            assert forall|j: int| 0 <= j < 4 * (i + 1) implies #[trigger] bytes@[j] == word_bytes(
                embedding@[j / 4].bits,
            )[j % 4] by {
                if j < 4 * i {
                    assert(bytes@[j] == before[j]);
                } else {
                    assert(j / 4 == i);
                }
            }
        }
        i += 1;
    }
    assert(bytes@ =~= encoded(embedding@));
    bytes
}

/// The embedding that bytes stand for. A number of bytes that is no multiple
/// of four is an error.
pub fn bytes_to_embedding(bytes: &Vec<u8>) -> (embedding: Result<Vec<Scalar>, EmbeddingError>)
    ensures
        match embedding {
            Ok(values) => bytes@.len() % 4 == 0 && values@ == decoded(bytes@),
            Err(e) => bytes@.len() % 4 != 0 && e == (EmbeddingError::TrailingBytes {
                length: bytes.len(),
            }),
        },
{
    if bytes.len() % 4 != 0 {
        return Err(EmbeddingError::TrailingBytes { length: bytes.len() });
    }
    let count = bytes.len() / 4;
    let mut values: Vec<Scalar> = Vec::new();
    let mut i: usize = 0;
    while i < count
        invariant
            i <= count,
            4 * count == bytes.len(),
            values@.len() == i,
            forall|j: int| 0 <= j < i ==> #[trigger] values@[j] == decoded(bytes@)[j],
        decreases count - i,
    {
        let b0 = bytes[4 * i] as u32;
        let b1 = bytes[4 * i + 1] as u32;
        let b2 = bytes[4 * i + 2] as u32;
        let b3 = bytes[4 * i + 3] as u32;
        values.push(Scalar::from_bits(b0 + b1 * 256 + b2 * 65536 + b3 * 16777216));
        i += 1;
    }
    assert(values@ =~= decoded(bytes@));
    Ok(values)
}

/// Writing an embedding and reading it back gives the embedding, and reading
/// bytes whose number is a multiple of four and writing them back gives the
/// bytes.
pub proof fn lemma_bytes_round_trip(values: Seq<Scalar>, bytes: Seq<u8>)
    ensures
        decoded(encoded(values)) == values,
        bytes.len() % 4 == 0 ==> encoded(decoded(bytes)) == bytes,
{
    let wire = encoded(values);
    assert(wire.len() / 4 == values.len());
    assert forall|i: int| 0 <= i < values.len() implies decoded(wire)[i] == values[i] by {
        let bits = values[i].bits;
        assert((4 * i) / 4 == i && (4 * i + 1) / 4 == i && (4 * i + 2) / 4 == i && (4 * i + 3) / 4
            == i);
        assert((4 * i) % 4 == 0 && (4 * i + 1) % 4 == 1 && (4 * i + 2) % 4 == 2 && (4 * i + 3) % 4
            == 3);
        assert(wire[4 * i] == word_bytes(bits)[0]);
        assert(wire[4 * i + 1] == word_bytes(bits)[1]);
        assert(wire[4 * i + 2] == word_bytes(bits)[2]);
        assert(wire[4 * i + 3] == word_bytes(bits)[3]);
        lemma_word_round_trip(bits, 0, 0, 0, 0);
    }
    assert(decoded(wire) =~= values);
    if bytes.len() % 4 == 0 {
        let read = decoded(bytes);
        assert forall|j: int| 0 <= j < bytes.len() implies encoded(read)[j] == bytes[j] by {
            let i = j / 4;
            lemma_word_round_trip(0, bytes[4 * i], bytes[4 * i + 1], bytes[4 * i + 2], bytes[4 * i + 3]);
        }
        assert(encoded(read) =~= bytes);
    }
}

/// Four bytes and their pattern determine each other.
pub proof fn lemma_word_round_trip(bits: u32, b0: u8, b1: u8, b2: u8, b3: u8)
    ensures
        word_of(word_bytes(bits)[0], word_bytes(bits)[1], word_bytes(bits)[2], word_bytes(bits)[3])
            == bits,
        word_bytes(word_of(b0, b1, b2, b3)) == seq![b0, b1, b2, b3],
{
    lemma_word_of_bytes(bits);
    lemma_bytes_of_word(b0, b1, b2, b3);
}

proof fn lemma_word_of_bytes(bits: u32)
    ensures
        word_of(word_bytes(bits)[0], word_bytes(bits)[1], word_bytes(bits)[2], word_bytes(bits)[3])
            == bits,
{
    let n = bits as int;
    let q1 = n / 256;
    let q2 = n / 65536;
    let q3 = n / 16777216;
    assert(q2 == q1 / 256);
    assert(q3 == q2 / 256);
    assert(n == 256 * q1 + n % 256);
    assert(q1 == 256 * q2 + q1 % 256);
    assert(q2 == 256 * q3 + q2 % 256);
    assert(0 <= q3 < 256);
}

proof fn lemma_bytes_of_word(b0: u8, b1: u8, b2: u8, b3: u8)
    ensures
        word_bytes(word_of(b0, b1, b2, b3)) == seq![b0, b1, b2, b3],
{
    let n: int = b0 + b1 * 256 + b2 * 65536 + b3 * 16777216;
    assert(0 <= n < 0x1_0000_0000);
    let w = word_of(b0, b1, b2, b3);
    assert(w == n);
    let r1: int = b1 + b2 * 256 + b3 * 65536;
    let r2: int = b2 + b3 * 256;
    assert(n == 256 * r1 + b0);
    assert(n / 256 == r1 && n % 256 == b0);
    assert(r1 == 256 * r2 + b1);
    assert(r1 / 256 == r2 && r1 % 256 == b1);
    assert(n / 65536 == r2);
    assert(r2 == 256 * b3 + b2);
    assert(r2 / 256 == b3 && r2 % 256 == b2);
    assert(n / 16777216 == b3);
    let s = word_bytes(w);
    assert(s.len() == 4);
    assert(s[0] == b0);
    assert(s[1] == b1);
    assert(s[2] == b2);
    assert(s[3] == b3);
    assert(s =~= seq![b0, b1, b2, b3]);
}

/// What leaves a similarity computation for a raw result: a NaN becomes zero.
pub open spec fn settled(raw: Scalar) -> Scalar {
    if raw.is_nan() {
        Scalar { bits: 0 }
    } else {
        raw
    }
}

/// Whether every value of a vector is zero, of either sign. Such a vector has
/// no direction.
pub open spec fn is_zero_vector(v: Seq<Scalar>) -> bool {
    forall|i: int| 0 <= i < v.len() ==> (#[trigger] v[i]).rank() == 0
}

/// Whether two vectors have a similarity that needs no arithmetic: their
/// lengths differ, they are empty, or one of them is all zero.
pub open spec fn is_degenerate(a: Seq<Scalar>, b: Seq<Scalar>) -> bool {
    a.len() != b.len() || a.len() == 0 || is_zero_vector(a) || is_zero_vector(b)
}

/// A kernel can be asked about any two vectors that are not degenerate.
pub open spec fn kernel_accepts<F: Fn(&Vec<Scalar>, &Vec<Scalar>) -> Scalar>(kernel: F) -> bool {
    forall|a: &Vec<Scalar>, b: &Vec<Scalar>|
        !is_degenerate(a@, b@) ==> call_requires(kernel, (a, b))
}

/// `s` is a similarity of `a` and `b` under `kernel`: zero when the two are
/// degenerate, and otherwise what the kernel returned for them, with a NaN
/// replaced by zero.
pub open spec fn is_similarity<F: Fn(&Vec<Scalar>, &Vec<Scalar>) -> Scalar>(
    kernel: F,
    a: &Vec<Scalar>,
    b: &Vec<Scalar>,
    s: Scalar,
) -> bool {
    if is_degenerate(a@, b@) {
        s.bits == 0
    } else {
        exists|raw: Scalar| #[trigger] call_ensures(kernel, (a, b), raw) && s == settled(raw)
    }
}

/// Whether every value of `v` is zero.
pub fn is_zero(v: &Vec<Scalar>) -> (zero: bool)
    ensures
        zero == is_zero_vector(v@),
{
    let mut i: usize = 0;
    while i < v.len()
        invariant
            i <= v.len(),
            forall|j: int| 0 <= j < i ==> (#[trigger] v@[j]).rank() == 0,
        decreases v.len() - i,
    {
        if v[i].rank_value() != 0 {
            return false;
        }
        i += 1;
    }
    true
}

/// The similarity of two embeddings under `kernel`. Vectors of different
/// lengths, empty ones and those that are all zero have similarity zero
/// exactly, and no NaN is ever returned.
pub fn cosine_similarity<F: Fn(&Vec<Scalar>, &Vec<Scalar>) -> Scalar>(
    a: &Vec<Scalar>,
    b: &Vec<Scalar>,
    kernel: &F,
) -> (s: Scalar)
    requires
        kernel_accepts(*kernel),
    ensures
        is_similarity(*kernel, a, b, s),
        !s.is_nan(),
        is_degenerate(a@, b@) ==> s.bits == 0,
{
    if a.len() != b.len() || a.len() == 0 || is_zero(a) || is_zero(b) {
        return Scalar::zero();
    }
    assert(!is_degenerate(a@, b@));
    let raw = kernel(a, b);
    if raw.is_nan_value() {
        Scalar::zero()
    } else {
        raw
    }
}

} // verus!

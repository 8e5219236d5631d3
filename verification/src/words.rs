//! Device words and their bytes.
//!
//! Every device buffer holds 32-bit little-endian words: unsigned integers and
//! the bit patterns of single-precision numbers.

use vstd::prelude::*;

verus! {

/// The IEEE-754 bit pattern of a single-precision number. `0` is `+0.0`.
pub type F32Bits = u32;

/// The four bytes of a word, least significant byte first.
pub open spec fn le_bytes(w: u32) -> Seq<u8> {
    seq![
        (w % 256) as u8,
        (w / 256 % 256) as u8,
        (w / 65536 % 256) as u8,
        (w / 16777216 % 256) as u8,
    ]
}

/// The bytes of a run of words: four per word, in order.
pub open spec fn word_bytes(ws: Seq<u32>) -> Seq<u8> {
    Seq::new(4 * ws.len(), |i: int| le_bytes(ws[i / 4])[i % 4])
}

/// The word that four bytes spell.
pub open spec fn word_of(b: Seq<u8>) -> u32 {
    (b[0] + 256 * b[1] + 65536 * b[2] + 16777216 * b[3]) as u32
}

/// The words that a run of bytes spells; a tail shorter than a word is not read.
pub open spec fn bytes_words(bs: Seq<u8>) -> Seq<u32> {
    Seq::new(bs.len() / 4, |i: int| word_of(bs.subrange(4 * i, 4 * i + 4)))
}

/// Spelling a word and reading it again gives the word.
pub proof fn lemma_word_round_trip(w: u32)
    ensures
        word_of(le_bytes(w)) == w,
{
    let b0 = w as int % 256;
    let b1 = w as int / 256 % 256;
    let b2 = w as int / 65536 % 256;
    let b3 = w as int / 16777216 % 256;
    assert(b0 + 256 * b1 + 65536 * b2 + 16777216 * b3 == w as int);
}

/// What is read back from the bytes of a run of words is that run of words.
pub proof fn law_words_round_trip(ws: Seq<u32>)
    ensures
        bytes_words(word_bytes(ws)) == ws,
{
    let bs = word_bytes(ws);
    assert forall|i: int| 0 <= i < ws.len() implies bytes_words(bs)[i] == ws[i] by {
        lemma_word_round_trip(ws[i]);
        assert(bs.subrange(4 * i, 4 * i + 4) =~= le_bytes(ws[i]));
    }
    assert(bytes_words(bs) =~= ws);
}

/// Reading four bytes and spelling the word again gives the bytes.
pub proof fn lemma_bytes_round_trip(b: Seq<u8>)
    requires
        b.len() == 4,
    ensures
        le_bytes(word_of(b)) == b,
{
    let (b0, b1, b2, b3) = (b[0] as int, b[1] as int, b[2] as int, b[3] as int);
    let v = b0 + 256 * b1 + 65536 * b2 + 16777216 * b3;
    assert(word_of(b) == v);
    assert(v % 256 == b0);
    assert(v / 256 == b1 + 256 * b2 + 65536 * b3);
    assert(v / 65536 == b2 + 256 * b3);
    assert(v / 16777216 == b3);
    assert(le_bytes(word_of(b)) =~= b);
}

/// Spelling the words read from whole words' bytes gives the bytes again.
pub proof fn law_bytes_round_trip(bs: Seq<u8>)
    requires
        bs.len() % 4 == 0,
    ensures
        word_bytes(bytes_words(bs)) == bs,
{
    let ws = bytes_words(bs);
    assert forall|i: int| 0 <= i < bs.len() implies word_bytes(ws)[i] == bs[i] by {
        let q = i / 4;
        let s = bs.subrange(4 * q, 4 * q + 4);
        assert(s[i % 4] == bs[i]);
        lemma_bytes_round_trip(s);
    }
    assert(word_bytes(ws) =~= bs);
}

/// Calls `bytemuck::cast_slice` from `[u8; 4]` to `u8`: the same memory read as
/// single bytes. Neither the size nor the alignment check of the cast can fail
/// for these two types. Claimed: byte `b` of the result is byte `b % 4` of
/// chunk `b / 4`.
#[verifier::external_body]
fn join_chunks(chunks: &Vec<[u8; 4]>) -> (bytes: Vec<u8>)
    ensures
        bytes@ == Seq::new(4 * chunks@.len(), |b: int| chunks@[b / 4]@[b % 4]),
{
    bytemuck::cast_slice::<[u8; 4], u8>(chunks.as_slice()).to_vec()
}

/// Calls `bytemuck::cast_slice` from `u8` to `[u8; 4]`: the same memory read in
/// chunks of four bytes. The cast panics on a length that is no multiple of
/// four, so those are left out; alignment is no matter between these types.
/// Claimed: chunk `q` of the result holds bytes `4 * q` to `4 * q + 3`.
#[verifier::external_body]
fn split_chunks(bytes: &[u8]) -> (chunks: Vec<[u8; 4]>)
    requires
        bytes@.len() % 4 == 0,
    ensures
        chunks@.len() == bytes@.len() / 4,
        forall|q: int|
            0 <= q < chunks@.len() ==> (#[trigger] chunks@[q])@ == bytes@.subrange(
                4 * q,
                4 * q + 4,
            ),
{
    bytemuck::cast_slice::<u8, [u8; 4]>(bytes).to_vec()
}

/// The bytes of `words`, as they are uploaded to a device buffer.
pub fn words_to_bytes(words: &[u32]) -> (bytes: Vec<u8>)
    ensures
        bytes@ == word_bytes(words@),
{
    let mut chunks: Vec<[u8; 4]> = Vec::new();
    let n: usize = words.len();
    for i in 0..n
        invariant
            n == words@.len(),
            chunks@.len() == i,
            forall|j: int| 0 <= j < i ==> (#[trigger] chunks@[j])@ == le_bytes(words@[j]),
    {
        let w: u32 = words[i];
        let chunk: [u8; 4] = [
            (w % 256) as u8,
            (w / 256 % 256) as u8,
            (w / 65536 % 256) as u8,
            (w / 16777216 % 256) as u8,
        ];
        assert(chunk@ =~= le_bytes(w));
        chunks.push(chunk);
    }
    let bytes = join_chunks(&chunks);
    assert(bytes@ =~= word_bytes(words@));
    bytes
}

/// The words in `bytes`, as they are read back from a device buffer; `None`
/// where the bytes are no whole number of words.
pub fn bytes_to_words(bytes: &[u8]) -> (words: Option<Vec<u32>>)
    ensures
        words is None <==> bytes@.len() % 4 != 0,
        words is Some ==> words->0@ == bytes_words(bytes@),
{
    if bytes.len() % 4 != 0 {
        return None;
    }
    let chunks = split_chunks(bytes);
    let n: usize = chunks.len();
    let mut words: Vec<u32> = Vec::new();
    for i in 0..n
        invariant
            n == chunks@.len() == bytes@.len() / 4,
            words@.len() == i,
            forall|q: int|
                0 <= q < chunks@.len() ==> (#[trigger] chunks@[q])@ == bytes@.subrange(
                    4 * q,
                    4 * q + 4,
                ),
            forall|j: int| 0 <= j < i ==> words@[j] == bytes_words(bytes@)[j],
    {
        let c: [u8; 4] = chunks[i];
        assert(c@ == bytes@.subrange(4 * i, 4 * i + 4));
        words.push(
            c[0] as u32 + 256 * (c[1] as u32) + 65536 * (c[2] as u32) + 16777216 * (c[3] as u32),
        );
    }
    assert(words@ =~= bytes_words(bytes@));
    Some(words)
}

/// Word `i` is spelt by bytes `4 * i` to `4 * i + 3`, the least significant
/// first, and by no others.
pub proof fn law_little_endian(ws: Seq<u32>, i: int)
    requires
        0 <= i < ws.len(),
    ensures
        word_bytes(ws).len() == 4 * ws.len(),
        ws[i] == word_bytes(ws)[4 * i] + 0x100 * word_bytes(ws)[4 * i + 1] + 0x1_0000
            * word_bytes(ws)[4 * i + 2] + 0x100_0000 * word_bytes(ws)[4 * i + 3],
{
    assert((4 * i) / 4 == i && (4 * i) % 4 == 0);
    assert((4 * i + 1) / 4 == i && (4 * i + 1) % 4 == 1);
    assert((4 * i + 2) / 4 == i && (4 * i + 2) % 4 == 2);
    assert((4 * i + 3) / 4 == i && (4 * i + 3) % 4 == 3);
    lemma_word_round_trip(ws[i]);
}

} // verus!

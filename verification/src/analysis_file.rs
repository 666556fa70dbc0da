//! Byte layout of the analysis files that sit next to each song.
//!
//! An analysis file is a sequence of 32-bit little-endian words. The current
//! layout holds the tempo (the bit pattern of a single-precision float) in the
//! first word and the rhythm, a list of signed integers, in the words after it.
//! The older prototype stored every value as a float word; `encode_words` and
//! `decode_words` give that layout.

use vstd::prelude::*;
use vstd::bytes::{spec_u32_from_le_bytes, spec_u32_to_le_bytes, lemma_auto_spec_u32_to_from_le_bytes};
use crate::le_bytes::{read_i32_le, read_u32_le, write_i32_le, write_u32_le};

verus! {

/// The bytes of `words`, each word stored least significant byte first.
pub open spec fn le_words(words: Seq<u32>) -> Seq<u8> {
    Seq::new(4 * words.len(), |k: int| spec_u32_to_le_bytes(words[k / 4])[k % 4])
}

/// The little-endian word that starts at byte `4 * i` of `bytes`.
pub open spec fn word_at(bytes: Seq<u8>, i: int) -> u32 {
    spec_u32_from_le_bytes(bytes.subrange(4 * i, 4 * i + 4))
}

/// The first `count` words of `bytes`.
pub open spec fn words_of(bytes: Seq<u8>, count: nat) -> Seq<u32> {
    Seq::new(count, |i: int| word_at(bytes, i))
}

/// The bit patterns of the rhythm's entries.
pub open spec fn rhythm_words(rhythm: Seq<i32>) -> Seq<u32> {
    rhythm.map_values(|x: i32| x as u32)
}

/// The contents of an analysis file: the tempo word, then one word per rhythm entry.
pub open spec fn analysis_bytes(tempo_bits: u32, rhythm: Seq<i32>) -> Seq<u8> {
    le_words(seq![tempo_bits] + rhythm_words(rhythm))
}

/// The tempo word that an analysis file starts with.
pub open spec fn decoded_tempo(bytes: Seq<u8>) -> u32 {
    word_at(bytes, 0)
}

/// The rhythm entries that follow the tempo word; bytes after the last whole
/// word are not read.
pub open spec fn decoded_rhythm(bytes: Seq<u8>) -> Seq<i32> {
    Seq::new(((bytes.len() - 4) / 4) as nat, |i: int| word_at(bytes, i + 1) as i32)
}

proof fn lemma_word_of_le_words(words: Seq<u32>, i: int)
    requires
        0 <= i < words.len(),
    ensures
        le_words(words).subrange(4 * i, 4 * i + 4) == spec_u32_to_le_bytes(words[i]),
        word_at(le_words(words), i) == words[i],
{
    lemma_auto_spec_u32_to_from_le_bytes();
    let s = le_words(words).subrange(4 * i, 4 * i + 4);
    assert forall|j: int| 0 <= j < 4 implies s[j] == spec_u32_to_le_bytes(words[i])[j] by {
        assert((4 * i + j) / 4 == i);
        assert((4 * i + j) % 4 == j);
    }
    assert(s =~= spec_u32_to_le_bytes(words[i]));
}

/// Reading back the words of an encoding gives the words that were encoded.
pub proof fn lemma_words_roundtrip(words: Seq<u32>)
    ensures
        words_of(le_words(words), words.len()) == words,
{
    assert forall|i: int| 0 <= i < words.len() implies #[trigger] words_of(
        le_words(words),
        words.len(),
    )[i] == words[i] by {
        lemma_word_of_le_words(words, i);
    }
    assert(words_of(le_words(words), words.len()) =~= words);
}

/// Encoding the words read from `bytes` gives back the bytes they were read from.
pub proof fn lemma_words_reencode(bytes: Seq<u8>, count: nat)
    requires
        4 * count <= bytes.len(),
    ensures
        le_words(words_of(bytes, count)) == bytes.take(4 * count as int),
{
    lemma_auto_spec_u32_to_from_le_bytes();
    let ws = words_of(bytes, count);
    assert forall|k: int| 0 <= k < 4 * count implies #[trigger] le_words(ws)[k] == bytes[k] by {
        let i = k / 4;
        let j = k % 4;
        assert(0 <= i < count);
        let sub = bytes.subrange(4 * i, 4 * i + 4);
        assert(sub.len() == 4);
        assert(spec_u32_to_le_bytes(spec_u32_from_le_bytes(sub)) == sub);
        assert(sub[j] == bytes[k]);
    }
    assert(le_words(ws) =~= bytes.take(4 * count as int));
}

/// Encodes `words` as consecutive little-endian words.
pub fn encode_words(words: &[u32]) -> (bytes: Vec<u8>)
    requires
        4 * words@.len() <= usize::MAX,
    ensures
        bytes@ == le_words(words@),
{
    let mut bytes: Vec<u8> = Vec::new();
    let n = words.len();
    for i in 0..n
        invariant
            n == words@.len(),
            bytes@.len() == 4 * i,
            forall|k: int|
                0 <= k < 4 * i ==> #[trigger] bytes@[k] == spec_u32_to_le_bytes(words@[k / 4])[k
                    % 4],
    {
        let mut word: [u8; 4] = [0, 0, 0, 0];
        write_u32_le(&mut word, words[i]);
        bytes.push(word[0]);
        bytes.push(word[1]);
        bytes.push(word[2]);
        bytes.push(word[3]);
        assert forall|k: int| 4 * i <= k < 4 * i + 4 implies #[trigger] bytes@[k]
            == spec_u32_to_le_bytes(words@[k / 4])[k % 4] by {
            assert(k / 4 == i);
        }
    }
    assert(bytes@ =~= le_words(words@));
    bytes
}

/// The four bytes starting at `pos`.
fn word_bytes(bytes: &[u8], pos: usize) -> (word: [u8; 4])
    requires
        pos + 4 <= bytes@.len(),
    ensures
        word@ == bytes@.subrange(pos as int, pos + 4),
{
    let word: [u8; 4] = [bytes[pos], bytes[pos + 1], bytes[pos + 2], bytes[pos + 3]];
    assert(word@ =~= bytes@.subrange(pos as int, pos + 4));
    word
}

/// Reads the first `count` little-endian words of `bytes`.
pub fn decode_words(bytes: &[u8], count: usize) -> (words: Vec<u32>)
    requires
        4 * count <= bytes@.len(),
    ensures
        words@ == words_of(bytes@, count as nat),
{
    let mut words: Vec<u32> = Vec::new();
    for i in 0..count
        invariant
            4 * count <= bytes@.len(),
            bytes@.len() == bytes.len(),
            words@ == words_of(bytes@, i as nat),
    {
        assert(4 * i + 4 <= 4 * count);
        let word = word_bytes(bytes, 4 * i);
        let w = read_u32_le(&word);
        words.push(w);
        assert(words@ =~= words_of(bytes@, (i + 1) as nat));
    }
    words
}

/// The entries of an analysis file's rhythm come back unchanged from their bit patterns.
proof fn lemma_rhythm_word_roundtrip(x: i32)
    ensures
        (x as u32) as i32 == x,
{
    assert((x as u32) as i32 == x) by (bit_vector);
}

/// Reading an analysis file gives back the tempo and the rhythm it was written with.
pub proof fn lemma_analysis_roundtrip(tempo_bits: u32, rhythm: Seq<i32>)
    ensures
        analysis_bytes(tempo_bits, rhythm).len() == 4 + 4 * rhythm.len(),
        decoded_tempo(analysis_bytes(tempo_bits, rhythm)) == tempo_bits,
        decoded_rhythm(analysis_bytes(tempo_bits, rhythm)) == rhythm,
{
    let words = seq![tempo_bits] + rhythm_words(rhythm);
    let bytes = analysis_bytes(tempo_bits, rhythm);
    assert(words.len() == rhythm.len() + 1);
    lemma_word_of_le_words(words, 0);
    assert(words[0] == tempo_bits);
    assert((bytes.len() - 4) / 4 == rhythm.len());
    assert forall|i: int| 0 <= i < rhythm.len() implies #[trigger] decoded_rhythm(bytes)[i]
        == rhythm[i] by {
        lemma_word_of_le_words(words, i + 1);
        assert(words[i + 1] == rhythm[i] as u32);
        lemma_rhythm_word_roundtrip(rhythm[i]);
    }
    assert(decoded_rhythm(bytes) =~= rhythm);
}

/// Writing back what was read from an analysis file gives the file's bytes, up
/// to its last whole word.
pub proof fn lemma_analysis_reencode(bytes: Seq<u8>)
    requires
        bytes.len() >= 4,
    ensures
        analysis_bytes(decoded_tempo(bytes), decoded_rhythm(bytes)) == bytes.take(
            4 + 4 * ((bytes.len() - 4) / 4),
        ),
{
    let n = ((bytes.len() - 4) / 4) as nat;
    let rhythm = decoded_rhythm(bytes);
    let words = seq![decoded_tempo(bytes)] + rhythm_words(rhythm);
    assert forall|i: int| 0 <= i < n + 1 implies #[trigger] words[i] == words_of(
        bytes,
        n + 1,
    )[i] by {
        if i > 0 {
            let w = word_at(bytes, i);
            assert(rhythm[i - 1] == w as i32);
            assert((w as i32) as u32 == w) by (bit_vector);
        }
    }
    assert(words =~= words_of(bytes, n + 1));
    lemma_words_reencode(bytes, n + 1);
}

/// The layout of an analysis file, word by word: the tempo's bit pattern in
/// the first four bytes and the bits of rhythm entry `i` in bytes `4 + 4 * i`
/// to `8 + 4 * i`, each least significant byte first.
pub proof fn lemma_analysis_layout(tempo_bits: u32, rhythm: Seq<i32>)
    ensures
        analysis_bytes(tempo_bits, rhythm).len() == 4 + 4 * rhythm.len(),
        analysis_bytes(tempo_bits, rhythm).subrange(0, 4) == spec_u32_to_le_bytes(tempo_bits),
        forall|i: int|
            0 <= i < rhythm.len() ==> #[trigger] analysis_bytes(tempo_bits, rhythm).subrange(
                4 + 4 * i,
                8 + 4 * i,
            ) == spec_u32_to_le_bytes(rhythm[i] as u32),
{
    let words = seq![tempo_bits] + rhythm_words(rhythm);
    lemma_word_of_le_words(words, 0);
    assert forall|i: int| 0 <= i < rhythm.len() implies #[trigger] analysis_bytes(
        tempo_bits,
        rhythm,
    ).subrange(4 + 4 * i, 8 + 4 * i) == spec_u32_to_le_bytes(rhythm[i] as u32) by {
        lemma_word_of_le_words(words, i + 1);
        assert(words[i + 1] == rhythm[i] as u32);
    }
}

/// Reading an analysis file, word by word: the tempo is the little-endian
/// word of the first four bytes, and rhythm entry `i` is the little-endian
/// word of bytes `4 + 4 * i` to `8 + 4 * i` read as a signed integer, one
/// entry for every whole word after the tempo.
pub proof fn lemma_analysis_reading(bytes: Seq<u8>)
    requires
        bytes.len() >= 4,
    ensures
        decoded_tempo(bytes) == spec_u32_from_le_bytes(bytes.subrange(0, 4)),
        decoded_rhythm(bytes).len() == (bytes.len() - 4) / 4,
        forall|i: int|
            0 <= i < decoded_rhythm(bytes).len() ==> #[trigger] decoded_rhythm(bytes)[i]
                == spec_u32_from_le_bytes(bytes.subrange(4 + 4 * i, 8 + 4 * i)) as i32,
{
}

/// Reading words: word `i` is the little-endian word of bytes `4 * i` to
/// `4 * i + 4`, for each of the words asked for.
pub proof fn lemma_words_reading(bytes: Seq<u8>, count: nat)
    ensures
        words_of(bytes, count).len() == count,
        forall|i: int|
            0 <= i < count ==> #[trigger] words_of(bytes, count)[i] == spec_u32_from_le_bytes(
                bytes.subrange(4 * i, 4 * i + 4),
            ),
{
}

/// The layout of consecutive words: word `i` is in bytes `4 * i` to
/// `4 * i + 4`, least significant byte first; reading them back word by word
/// gives each word.
pub proof fn lemma_words_layout(words: Seq<u32>)
    ensures
        le_words(words).len() == 4 * words.len(),
        forall|i: int|
            0 <= i < words.len() ==> #[trigger] le_words(words).subrange(4 * i, 4 * i + 4)
                == spec_u32_to_le_bytes(words[i]),
        forall|i: int|
            0 <= i < words.len() ==> #[trigger] words_of(le_words(words), words.len())[i]
                == words[i],
{
    assert forall|i: int| 0 <= i < words.len() implies #[trigger] le_words(words).subrange(
        4 * i,
        4 * i + 4,
    ) == spec_u32_to_le_bytes(words[i]) by {
        lemma_word_of_le_words(words, i);
    }
    lemma_words_roundtrip(words);
}

/// Lays out an analysis file: the tempo's bit pattern, then every rhythm entry.
pub fn encode_analysis(tempo_bits: u32, rhythm: &[i32]) -> (bytes: Vec<u8>)
    requires
        4 + 4 * rhythm@.len() <= usize::MAX,
    ensures
        bytes@ == analysis_bytes(tempo_bits, rhythm@),
{
    let ghost words = seq![tempo_bits] + rhythm_words(rhythm@);
    let mut bytes: Vec<u8> = Vec::new();
    let mut word: [u8; 4] = [0, 0, 0, 0];
    write_u32_le(&mut word, tempo_bits);
    bytes.push(word[0]);
    bytes.push(word[1]);
    bytes.push(word[2]);
    bytes.push(word[3]);
    assert forall|k: int| 0 <= k < 4 implies #[trigger] bytes@[k] == spec_u32_to_le_bytes(
        words[k / 4],
    )[k % 4] by {
        assert(k / 4 == 0);
    }
    let n = rhythm.len();
    for i in 0..n
        invariant
            n == rhythm@.len(),
            words == seq![tempo_bits] + rhythm_words(rhythm@),
            bytes@.len() == 4 + 4 * i,
            forall|k: int|
                0 <= k < 4 + 4 * i ==> #[trigger] bytes@[k] == spec_u32_to_le_bytes(
                    words[k / 4],
                )[k % 4],
    {
        let mut word: [u8; 4] = [0, 0, 0, 0];
        write_i32_le(&mut word, rhythm[i]);
        bytes.push(word[0]);
        bytes.push(word[1]);
        bytes.push(word[2]);
        bytes.push(word[3]);
        assert forall|k: int| 4 + 4 * i <= k < 8 + 4 * i implies #[trigger] bytes@[k]
            == spec_u32_to_le_bytes(words[k / 4])[k % 4] by {
            assert(k / 4 == i + 1);
            assert(words[i + 1] == rhythm@[i as int] as u32);
        }
    }
    assert(bytes@ =~= analysis_bytes(tempo_bits, rhythm@));
    bytes
}

/// Reads an analysis file: the tempo's bit pattern from the first word, then
/// one rhythm entry from each further whole word.
pub fn decode_analysis(bytes: &[u8]) -> (decoded: (u32, Vec<i32>))
    requires
        bytes@.len() >= 4,
    ensures
        decoded.0 == decoded_tempo(bytes@),
        decoded.1@ == decoded_rhythm(bytes@),
{
    let word = word_bytes(bytes, 0);
    let tempo_bits = read_u32_le(&word);
    let count = (bytes.len() - 4) / 4;
    let mut rhythm: Vec<i32> = Vec::new();
    for i in 0..count
        invariant
            count == (bytes@.len() - 4) / 4,
            bytes@.len() == bytes.len(),
            rhythm@ =~= decoded_rhythm(bytes@).take(i as int),
    {
        assert(4 * i + 8 <= bytes@.len());
        let word = word_bytes(bytes, 4 * i + 4);
        let x = read_i32_le(&word);
        rhythm.push(x);
        assert(rhythm@ =~= decoded_rhythm(bytes@).take(i + 1));
    }
    assert(rhythm@ =~= decoded_rhythm(bytes@));
    (tempo_bits, rhythm)
}

} // verus!

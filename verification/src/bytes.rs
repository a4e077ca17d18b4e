//! Upload encoding: 32-bit words as the bytes that the device reads.

use vstd::prelude::*;

use crate::{FACE_BUF_STRIDE, FACE_SLOTS, MAX_SHADOW_FACES};

verus! {

/// Byte `k` of a word, counted from the least significant one.
pub open spec fn byte_of(word: u32, k: int) -> u8 {
    let shifted = if k == 0 {
        word as int
    } else if k == 1 {
        word as int / 0x100
    } else if k == 2 {
        word as int / 0x1_0000
    } else {
        word as int / 0x100_0000
    };
    (shifted % 0x100) as u8
}

/// The words one after the other, the least significant byte of each first.
pub open spec fn little_endian(words: Seq<u32>) -> Seq<u8> {
    Seq::new(4 * words.len(), |i: int| byte_of(words[i / 4], i % 4))
}

/// The words one after the other, the most significant byte of each first.
pub open spec fn big_endian(words: Seq<u32>) -> Seq<u8> {
    Seq::new(4 * words.len(), |i: int| byte_of(words[i / 4], 3 - i % 4))
}

/// `bytes` is what memory holds of `words`: all of them in the one byte order or
/// all of them in the other.
pub open spec fn native_bytes(words: Seq<u32>, bytes: Seq<u8>) -> bool {
    bytes == little_endian(words) || bytes == big_endian(words)
}

/// The memory of a slice of words, through `bytemuck::cast_slice`.
///
/// The outside function reinterprets the memory of the slice, so each word becomes
/// its four bytes in the byte order of the machine. Which of the two orders that is
/// depends on the machine and is left open. A cast to bytes never fails: it needs
/// no alignment and leaves no remainder.
#[verifier::external_body]
pub(crate) fn word_bytes(words: &[u32]) -> (bytes: Vec<u8>)
    ensures
        native_bytes(words@, bytes@),
{
    bytemuck::cast_slice::<u32, u8>(words).to_vec()
}

/// Words of one entry of a per-face uniform table.
pub const TABLE_ENTRY_WORDS: usize = 64;

/// The words of a per-face table: the entry of face `f` begins with `first + f` and is
/// zero behind it.
pub open spec fn face_table_words(first: u32) -> Seq<u32> {
    Seq::new(
        (FACE_SLOTS * TABLE_ENTRY_WORDS) as nat,
        |i: int|
            if i % (TABLE_ENTRY_WORDS as int) == 0 {
                (first + i / (TABLE_ENTRY_WORDS as int)) as u32
            } else {
                0
            },
    )
}

/// The content of a per-face uniform table whose entry `f` holds `first + f`, one entry
/// per `FACE_BUF_STRIDE` bytes.
pub fn face_table(first: u32) -> (bytes: Vec<u8>)
    requires
        first <= u32::MAX - MAX_SHADOW_FACES,
    ensures
        native_bytes(face_table_words(first), bytes@),
        bytes@.len() == MAX_SHADOW_FACES * FACE_BUF_STRIDE,
{
    let mut words: Vec<u32> = Vec::new();
    let mut i: usize = 0;
    while i < FACE_SLOTS * TABLE_ENTRY_WORDS
        invariant
            i <= FACE_SLOTS * TABLE_ENTRY_WORDS,
            first <= u32::MAX - MAX_SHADOW_FACES,
            words@ == face_table_words(first).take(i as int),
        decreases FACE_SLOTS * TABLE_ENTRY_WORDS - i,
    {
        let word: u32 = if i % TABLE_ENTRY_WORDS == 0 {
            first + (i / TABLE_ENTRY_WORDS) as u32
        } else {
            0
        };
        assert(word == face_table_words(first)[i as int]);
        words.push(word);
        assert(words@ =~= face_table_words(first).take(i + 1));
        i += 1;
    }
    assert(face_table_words(first).take(i as int) =~= face_table_words(first));
    word_bytes(words.as_slice())
}

/// Either byte order keeps every word: two word lists with the same bytes in the
/// same order are the same list.
pub proof fn encoding_is_lossless(a: Seq<u32>, b: Seq<u32>)
    ensures
        little_endian(a) == little_endian(b) ==> a == b,
        big_endian(a) == big_endian(b) ==> a == b,
{
    if little_endian(a) == little_endian(b) {
        assert(little_endian(a).len() == little_endian(b).len());
        assert forall|i: int| 0 <= i < a.len() implies a[i] == b[i] by {
            assert forall|k: int| 0 <= k < 4 implies byte_of(a[i], k) == byte_of(b[i], k) by {
                assert(little_endian(a)[4 * i + k] == little_endian(b)[4 * i + k]);
                assert((4 * i + k) / 4 == i && (4 * i + k) % 4 == k);
            }
            word_is_its_bytes(a[i], b[i]);
        }
        assert(a =~= b);
    }
    if big_endian(a) == big_endian(b) {
        assert(big_endian(a).len() == big_endian(b).len());
        assert forall|i: int| 0 <= i < a.len() implies a[i] == b[i] by {
            assert forall|k: int| 0 <= k < 4 implies byte_of(a[i], k) == byte_of(b[i], k) by {
                assert(big_endian(a)[4 * i + (3 - k)] == big_endian(b)[4 * i + (3 - k)]);
                assert((4 * i + (3 - k)) / 4 == i && (4 * i + (3 - k)) % 4 == 3 - k);
            }
            word_is_its_bytes(a[i], b[i]);
        }
        assert(a =~= b);
    }
}

proof fn word_is_its_bytes(x: u32, y: u32)
    requires
        forall|k: int| 0 <= k < 4 ==> #[trigger] byte_of(x, k) == byte_of(y, k),
    ensures
        x == y,
{
    assert(byte_of(x, 0) == byte_of(y, 0));
    assert(byte_of(x, 1) == byte_of(y, 1));
    assert(byte_of(x, 2) == byte_of(y, 2));
    assert(byte_of(x, 3) == byte_of(y, 3));
}

/// The uploaded bytes make up the words: four per word, and all words in one byte order.
pub proof fn bytes_make_up_the_words(words: Seq<u32>, bytes: Seq<u8>)
    requires
        native_bytes(words, bytes),
    ensures
        bytes.len() == 4 * words.len(),
        ({
            ||| forall|i: int|
                0 <= i < words.len() ==> #[trigger] words[i] == bytes[4 * i] + 0x100 * bytes[4 * i
                    + 1] + 0x1_0000 * bytes[4 * i + 2] + 0x100_0000 * bytes[4 * i + 3]
            ||| forall|i: int|
                0 <= i < words.len() ==> #[trigger] words[i] == bytes[4 * i + 3] + 0x100 * bytes[4
                    * i + 2] + 0x1_0000 * bytes[4 * i + 1] + 0x100_0000 * bytes[4 * i]
        }),
{
    if bytes == little_endian(words) {
        assert forall|i: int| 0 <= i < words.len() implies #[trigger] words[i] == bytes[4 * i]
            + 0x100 * bytes[4 * i + 1] + 0x1_0000 * bytes[4 * i + 2] + 0x100_0000 * bytes[4 * i
            + 3] by {
            little_endian_by_index(words, i);
            word_is_the_sum_of_its_bytes(words[i]);
        }
    } else {
        assert forall|i: int| 0 <= i < words.len() implies #[trigger] words[i] == bytes[4 * i + 3]
            + 0x100 * bytes[4 * i + 2] + 0x1_0000 * bytes[4 * i + 1] + 0x100_0000 * bytes[4
            * i] by {
            big_endian_by_index(words, i);
            word_is_the_sum_of_its_bytes(words[i]);
        }
    }
}

proof fn little_endian_by_index(words: Seq<u32>, i: int)
    requires
        0 <= i < words.len(),
    ensures
        little_endian(words)[4 * i] == byte_of(words[i], 0),
        little_endian(words)[4 * i + 1] == byte_of(words[i], 1),
        little_endian(words)[4 * i + 2] == byte_of(words[i], 2),
        little_endian(words)[4 * i + 3] == byte_of(words[i], 3),
{
    assert((4 * i) / 4 == i && (4 * i + 1) / 4 == i && (4 * i + 2) / 4 == i && (4 * i + 3) / 4
        == i);
    assert((4 * i) % 4 == 0 && (4 * i + 1) % 4 == 1 && (4 * i + 2) % 4 == 2 && (4 * i + 3) % 4
        == 3);
}

proof fn big_endian_by_index(words: Seq<u32>, i: int)
    requires
        0 <= i < words.len(),
    ensures
        big_endian(words)[4 * i] == byte_of(words[i], 3),
        big_endian(words)[4 * i + 1] == byte_of(words[i], 2),
        big_endian(words)[4 * i + 2] == byte_of(words[i], 1),
        big_endian(words)[4 * i + 3] == byte_of(words[i], 0),
{
    assert((4 * i) / 4 == i && (4 * i + 1) / 4 == i && (4 * i + 2) / 4 == i && (4 * i + 3) / 4
        == i);
    assert((4 * i) % 4 == 0 && (4 * i + 1) % 4 == 1 && (4 * i + 2) % 4 == 2 && (4 * i + 3) % 4
        == 3);
}

proof fn word_is_the_sum_of_its_bytes(word: u32)
    ensures
        word == byte_of(word, 0) + 0x100 * byte_of(word, 1) + 0x1_0000 * byte_of(word, 2)
            + 0x100_0000 * byte_of(word, 3),
{
}

/// A per-face table has one entry per face slot, 256 bytes apart: the first word of entry
/// `face` is `first + face`, the other words are zero.
pub proof fn table_entries_hold_their_face(first: u32, face: int, word: int)
    requires
        first <= u32::MAX - 256,
        0 <= face < 256,
        0 <= word < 64,
    ensures
        4 * face_table_words(first).len() == 256 * 256,
        face_table_words(first)[face * 256 / 4] == first + face,
        word > 0 ==> face_table_words(first)[face * 256 / 4 + word] == 0,
{
    assert(face * 256 / 4 == 64 * face);
    assert((64 * face + word) % 64 == word && (64 * face + word) / 64 == face);
    assert((64 * face) % 64 == 0 && (64 * face) / 64 == face);
}

} // verus!

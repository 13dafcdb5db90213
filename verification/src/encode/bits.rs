//! The bit-level model of encoding: a byte sequence read as a big-endian
//! stream of six-bit groups, and the 64-bit words that groups are cut from.

use vstd::prelude::*;

verus! {

/// The `index`-th six-bit group of `bytes`, read as one big-endian bit stream.
///
/// Three bytes hold four groups. Group `index` lies in the three bytes that
/// start at `3 * (index / 4)`, and `index % 4` says where in them it lies.
/// The first group needs only the first of the three bytes and the last only
/// the third, so a stream that ends inside such a triple still has its
/// leading groups.
pub open spec fn sextet(bytes: Seq<u8>, index: int) -> u8 {
    let at = 3 * (index / 4);
    let place = index % 4;
    if place == 0 {
        bytes[at] >> 2
    } else if place == 1 {
        ((bytes[at] & 0x03) << 4) | (bytes[at + 1] >> 4)
    } else if place == 2 {
        ((bytes[at + 1] & 0x0f) << 2) | (bytes[at + 2] >> 6)
    } else {
        bytes[at + 2] & 0x3f
    }
}

/// The eight bytes of `bytes` that start at `at`, as one unsigned big-endian
/// number: the byte at `at` is the most significant.
pub open spec fn big_endian_word(bytes: Seq<u8>, at: int) -> u64 {
    (bytes[at] as u64) << 56
        | (bytes[at + 1] as u64) << 48
        | (bytes[at + 2] as u64) << 40
        | (bytes[at + 3] as u64) << 32
        | (bytes[at + 4] as u64) << 24
        | (bytes[at + 5] as u64) << 16
        | (bytes[at + 6] as u64) << 8
        | (bytes[at + 7] as u64)
}

/// The `place`-th six-bit group of `word`, counted from its most significant
/// bit: the word shifted right by `64 - (place + 1) * 6`, low six bits kept.
///
/// A word holds ten such groups and four bits over; encoding uses the first
/// eight.
pub open spec fn word_sextet(word: u64, place: int) -> u8 {
    ((word >> ((64 - (place + 1) * 6) as u64)) & 0x3f) as u8
}

/// The eight leading groups of a big-endian word, written out byte by byte:
/// the first four come from the first three bytes, the next four from the
/// three bytes after them, and the last two bytes take no part.
proof fn lemma_word_groups(b0: u8, b1: u8, b2: u8, b3: u8, b4: u8, b5: u8, b6: u8, b7: u8)
    ensures
        ({
            let word = (b0 as u64) << 56
                | (b1 as u64) << 48
                | (b2 as u64) << 40
                | (b3 as u64) << 32
                | (b4 as u64) << 24
                | (b5 as u64) << 16
                | (b6 as u64) << 8
                | (b7 as u64);
            &&& ((word >> 58) & 0x3f) as u8 == b0 >> 2
            &&& ((word >> 52) & 0x3f) as u8 == ((b0 & 0x03) << 4) | (b1 >> 4)
            &&& ((word >> 46) & 0x3f) as u8 == ((b1 & 0x0f) << 2) | (b2 >> 6)
            &&& ((word >> 40) & 0x3f) as u8 == b2 & 0x3f
            &&& ((word >> 34) & 0x3f) as u8 == b3 >> 2
            &&& ((word >> 28) & 0x3f) as u8 == ((b3 & 0x03) << 4) | (b4 >> 4)
            &&& ((word >> 22) & 0x3f) as u8 == ((b4 & 0x0f) << 2) | (b5 >> 6)
            &&& ((word >> 16) & 0x3f) as u8 == b5 & 0x3f
        }),
{
    let word = (b0 as u64) << 56
        | (b1 as u64) << 48
        | (b2 as u64) << 40
        | (b3 as u64) << 32
        | (b4 as u64) << 24
        | (b5 as u64) << 16
        | (b6 as u64) << 8
        | (b7 as u64);
    assert({
        &&& ((word >> 58) & 0x3f) as u8 == b0 >> 2
        &&& ((word >> 52) & 0x3f) as u8 == ((b0 & 0x03) << 4) | (b1 >> 4)
        &&& ((word >> 46) & 0x3f) as u8 == ((b1 & 0x0f) << 2) | (b2 >> 6)
        &&& ((word >> 40) & 0x3f) as u8 == b2 & 0x3f
    }) by (bit_vector)
        requires
            word == (b0 as u64) << 56
                | (b1 as u64) << 48
                | (b2 as u64) << 40
                | (b3 as u64) << 32
                | (b4 as u64) << 24
                | (b5 as u64) << 16
                | (b6 as u64) << 8
                | (b7 as u64),
    ;
    assert({
        &&& ((word >> 34) & 0x3f) as u8 == b3 >> 2
        &&& ((word >> 28) & 0x3f) as u8 == ((b3 & 0x03) << 4) | (b4 >> 4)
        &&& ((word >> 22) & 0x3f) as u8 == ((b4 & 0x0f) << 2) | (b5 >> 6)
        &&& ((word >> 16) & 0x3f) as u8 == b5 & 0x3f
    }) by (bit_vector)
        requires
            word == (b0 as u64) << 56
                | (b1 as u64) << 48
                | (b2 as u64) << 40
                | (b3 as u64) << 32
                | (b4 as u64) << 24
                | (b5 as u64) << 16
                | (b6 as u64) << 8
                | (b7 as u64),
    ;
}

/// Cutting a word into groups agrees with cutting the stream into groups.
///
/// The word read at the byte where group `first` starts (`first` a multiple
/// of four, so that it starts on a byte) holds the groups `first` to
/// `first + 7` of the stream, in that order.
pub proof fn lemma_word_sextet_is_stream_sextet(bytes: Seq<u8>, first: int, place: int)
    requires
        0 <= first,
        first % 4 == 0,
        0 <= place < 8,
    ensures
        word_sextet(big_endian_word(bytes, 3 * (first / 4)), place) == sextet(
            bytes,
            first + place,
        ),
{
    let at = 3 * (first / 4);
    lemma_word_groups(
        bytes[at],
        bytes[at + 1],
        bytes[at + 2],
        bytes[at + 3],
        bytes[at + 4],
        bytes[at + 5],
        bytes[at + 6],
        bytes[at + 7],
    );
    assert((first + place) / 4 == first / 4 + place / 4);
    assert((first + place) % 4 == place % 4);
}

/// A window that starts on a group boundary holds the stream's groups from
/// there on: group `n` of the window is group `4 * (start / 3) + n` of the
/// whole, as long as the three bytes around that group lie inside the window.
pub proof fn lemma_sextet_of_window(bytes: Seq<u8>, start: int, len: int, n: int)
    requires
        0 <= start,
        start % 3 == 0,
        0 <= len,
        start + len <= bytes.len(),
        0 <= n,
        3 * (n / 4) + 2 < len,
    ensures
        sextet(bytes.subrange(start, start + len), n) == sextet(bytes, 4 * (start / 3) + n),
{
    let window = bytes.subrange(start, start + len);
    let at = 3 * (n / 4);
    assert((4 * (start / 3) + n) / 4 == start / 3 + n / 4);
    assert((4 * (start / 3) + n) % 4 == n % 4);
    assert(3 * ((4 * (start / 3) + n) / 4) == start + at);
    assert(window[at] == bytes[start + at]);
    assert(window[at + 1] == bytes[start + at + 1]);
    assert(window[at + 2] == bytes[start + at + 2]);
}

/// Reads the eight bytes of `bytes` that start at `at` as a big-endian word.
pub fn read_big_endian_word(bytes: &[u8], at: usize) -> (word: u64)
    requires
        at + 8 <= bytes@.len(),
    ensures
        word == big_endian_word(bytes@, at as int),
{
    (bytes[at] as u64) << 56
        | (bytes[at + 1] as u64) << 48
        | (bytes[at + 2] as u64) << 40
        | (bytes[at + 3] as u64) << 32
        | (bytes[at + 4] as u64) << 24
        | (bytes[at + 5] as u64) << 16
        | (bytes[at + 6] as u64) << 8
        | (bytes[at + 7] as u64)
}

} // verus!

//! Block encoders: the shared contract, the scalar kernel, and the choice of
//! an encoder for a configuration.

use crate::config::Config;
use crate::config::CustomConfig;
use crate::encode::bits::big_endian_word;
use crate::encode::bits::lemma_sextet_of_window;
use crate::encode::bits::lemma_word_sextet_is_stream_sextet;
use crate::encode::bits::read_big_endian_word;
use crate::encode::bits::sextet;
use crate::encode::bits::word_sextet;
use crate::encode::block_iter::block_count;
use crate::encode::block_iter::BlockIter;
use crate::u6::U6;
use vstd::prelude::*;

verus! {

/// The encoding of the first `groups` six-bit groups of `input`: one byte
/// for each group, looked up in `alphabet`.
pub open spec fn encoded(alphabet: Seq<u8>, input: Seq<u8>, groups: int) -> Seq<u8> {
    Seq::new(groups as nat, |n: int| alphabet[sextet(input, n) as int])
}

/// A configuration that can pick the encoder to run it with.
///
/// The choice is made once, by value, and cannot fail. Whatever is picked
/// writes with the configuration's own alphabet, so the choice shows in the
/// running time alone.
pub trait IntoBlockEncoder: Config {
    /// The encoder that is picked.
    type BlockEncoder: BlockEncoder;

    /// Picks the encoder for this configuration.
    fn into_block_encoder(self) -> (encoder: Self::BlockEncoder)
        ensures
            BlockEncoder::alphabet(encoder) == Config::alphabet(self),
    ;
}

/// What a call that encodes whole blocks leaves behind.
///
/// `blocks` window pairs fit into `input` and `output_before`. The input
/// remainder is the input after 24 bytes for each block, and the output
/// remainder is the output after 32 bytes for each block, as it was. In the
/// end the output holds the encoding of the input's leading six-bit groups,
/// 32 for each block, and after them whatever the caller has made of the
/// output remainder.
pub open spec fn blocks_encoded(
    alphabet: Seq<u8>,
    input: Seq<u8>,
    output_before: Seq<u8>,
    output_after: Seq<u8>,
    input_rest: Seq<u8>,
    output_rest_before: Seq<u8>,
    output_rest_after: Seq<u8>,
) -> bool {
    let blocks = block_count(input.len() as int, output_before.len() as int);
    &&& input_rest == input.skip(24 * blocks)
    &&& output_rest_before == output_before.skip(32 * blocks)
    &&& output_after == encoded(alphabet, input, 32 * blocks) + output_rest_after
}

/// An encoder of whole blocks.
///
/// Every encoder meets the same contract, so one can stand in for another:
/// they may differ in speed, never in what they write.
pub trait BlockEncoder: Copy {
    /// The alphabet that this encoder writes with.
    spec fn alphabet(self) -> Seq<u8>;

    /// The alphabet has an entry for each of the 64 six-bit values, and no
    /// other.
    proof fn lemma_alphabet_len(self)
        ensures
            self.alphabet().len() == 64,
    ;

    /// Encodes as many whole blocks as `input` and `output` have room for and
    /// hands back what is left of both.
    ///
    /// A block takes 24 bytes of input to 32 bytes of output; to encode one,
    /// 26 bytes of input must be there to read. Input or output too short
    /// for a block comes back as it went in.
    fn encode_blocks<'a, 'b>(self, input: &'a [u8], output: &'b mut [u8]) -> (rest: (
        &'a [u8],
        &'b mut [u8],
    ))
        ensures
            blocks_encoded(
                self.alphabet(),
                input@,
                old(output)@,
                final(output)@,
                rest.0@,
                rest.1@,
                final(rest.1)@,
            ),
            3 * (old(output)@.len() - rest.1@.len()) == 4 * (input@.len() - rest.0@.len()),
            input@.len() < 26 || old(output)@.len() < 32 ==> {
                &&& rest.0@ == input@
                &&& rest.1@ == old(output)@
                &&& final(output)@ == final(rest.1)@
            },
    ;
}

/// The portable encoder: plain shifts and masks, one table lookup for each
/// byte written.
#[derive(Debug, Copy)]
pub struct ScalarBlockEncoder<C>(C);

impl<C: Copy> Clone for ScalarBlockEncoder<C> {
    fn clone(&self) -> (copy: Self)
        ensures
            copy == *self,
    {
        *self
    }
}

impl<C> ScalarBlockEncoder<C> where C: Config {
    /// The configuration that this encoder looks symbols up in.
    pub closed spec fn config(self) -> C {
        self.0
    }

    /// Makes the scalar encoder for `config`.
    pub fn new(config: C) -> (encoder: Self)
        ensures
            encoder.config() == config,
    {
        ScalarBlockEncoder(config)
    }

    /// Writes the symbols of the eight leading six-bit groups of `input`,
    /// most significant group first.
    pub fn encode_chunk(self, input: u64, output: &mut [u8; 8])
        ensures
            forall|place: int|
                0 <= place < 8 ==> final(output)@[place] == self.config().alphabet()[word_sextet(
                    input,
                    place,
                ) as int],
    {
        let mut idx: usize = 0;
        while idx < 8
            invariant
                idx <= 8,
                forall|place: int|
                    0 <= place < idx ==> output@[place] == self.config().alphabet()[word_sextet(
                        input,
                        place,
                    ) as int],
            decreases 8 - idx,
        {
            let shift_amount: u64 = 64 - (idx as u64 + 1) * 6;
            let shifted_input: u64 = input >> shift_amount;
            let low_byte: u8 = #[verifier::truncate]
            (shifted_input as u8);
            assert(low_byte & 0x3f == ((input >> shift_amount) & 0x3f) as u8) by (bit_vector)
                requires
                    low_byte == (input >> shift_amount) as u8,
            ;
            output[idx] = self.0.encode_u6(U6::from_low_six_bits(low_byte));
            idx += 1;
        }
    }

    /// Encodes one block: the 32 leading six-bit groups of a 26-byte window,
    /// in four words of eight groups each.
    ///
    /// The words are read six bytes apart and are eight bytes long, so the
    /// last one ends at byte 26, though the groups written come from the
    /// first 24 bytes alone.
    pub fn encode_block(self, input_block: &[u8], output_block: &mut [u8])
        requires
            input_block@.len() == 26,
            old(output_block)@.len() == 32,
        ensures
            final(output_block)@ == encoded(self.config().alphabet(), input_block@, 32),
    {
        let mut i: usize = 0;
        while i < 4
            invariant
                i <= 4,
                input_block@.len() == 26,
                output_block@.len() == 32,
                forall|n: int|
                    0 <= n < 8 * i ==> output_block@[n] == self.config().alphabet()[sextet(
                        input_block@,
                        n,
                    ) as int],
            decreases 4 - i,
        {
            let word: u64 = read_big_endian_word(input_block, i * 6);
            let mut chunk: [u8; 8] = [0u8;8];
            self.encode_chunk(word, &mut chunk);
            let mut j: usize = 0;
            while j < 8
                invariant
                    i < 4,
                    j <= 8,
                    output_block@.len() == 32,
                    word == big_endian_word(input_block@, i * 6),
                    forall|place: int|
                        0 <= place < 8 ==> chunk@[place] == self.config().alphabet()[word_sextet(
                            word,
                            place,
                        ) as int],
                    forall|n: int|
                        0 <= n < 8 * i ==> output_block@[n] == self.config().alphabet()[sextet(
                            input_block@,
                            n,
                        ) as int],
                    forall|place: int|
                        0 <= place < j ==> output_block@[8 * i + place] == chunk@[place],
                decreases 8 - j,
            {
                output_block[i * 8 + j] = chunk[j];
                j += 1;
            }
            proof {
                assert forall|n: int| 8 * i <= n < 8 * (i + 1) implies output_block@[n]
                    == self.config().alphabet()[sextet(input_block@, n) as int] by {
                    let place = n - 8 * i;
                    lemma_word_sextet_is_stream_sextet(input_block@, 8 * i, place);
                    assert(3 * ((8 * i) / 4) == i * 6);
                    assert(output_block@[8 * i + place] == chunk@[place]);
                }
            }
            i += 1;
        }
        assert(output_block@ =~= encoded(self.config().alphabet(), input_block@, 32));
    }
}

impl<C> BlockEncoder for ScalarBlockEncoder<C> where C: Config {
    open spec fn alphabet(self) -> Seq<u8> {
        self.config().alphabet()
    }

    proof fn lemma_alphabet_len(self) {
        self.config().lemma_alphabet_len();
    }

    fn encode_blocks<'a, 'b>(self, input: &'a [u8], output: &'b mut [u8]) -> (rest: (
        &'a [u8],
        &'b mut [u8],
    )) {
        let ghost before: Seq<u8> = output@;
        let ghost after: Seq<u8> = final(output)@;
        let ghost mut blocks: int = 0;
        let mut iter = BlockIter::new(input, output);
        proof {
            assert(iter.input@ =~= input@.skip(0));
            assert(iter.output@ =~= before.skip(0));
            assert(after =~= encoded(self.alphabet(), input@, 0) + final(iter.output)@);
        }
        loop
            invariant
                0 <= blocks <= block_count(input@.len() as int, before.len() as int),
                24 * blocks <= input@.len(),
                32 * blocks <= before.len(),
                iter.input@ == input@.skip(24 * blocks),
                iter.output@ == before.skip(32 * blocks),
                after == encoded(self.alphabet(), input@, 32 * blocks) + final(iter.output)@,
            ensures
                blocks == block_count(input@.len() as int, before.len() as int),
                24 * blocks <= input@.len(),
                32 * blocks <= before.len(),
                iter.input@ == input@.skip(24 * blocks),
                iter.output@ == before.skip(32 * blocks),
                after == encoded(self.alphabet(), input@, 32 * blocks) + final(iter.output)@,
            decreases input@.len() - 24 * blocks,
        {
            match iter.next() {
                None => {
                    break ;
                },
                Some((input_block, output_block)) => {
                    self.encode_block(input_block, output_block);
                    proof {
                        let done = blocks;
                        blocks = blocks + 1;
                        assert(iter.input@ =~= input@.skip(24 * blocks));
                        assert(iter.output@ =~= before.skip(32 * blocks));
                        assert forall|n: int| 0 <= n < 32 implies sextet(input_block@, n)
                            == sextet(input@, 32 * done + n) by {
                            lemma_sextet_of_window(input@, 24 * done, 26, n);
                        }
                        assert(encoded(self.alphabet(), input@, 32 * blocks) =~= encoded(
                            self.alphabet(),
                            input@,
                            32 * done,
                        ) + encoded(self.alphabet(), input_block@, 32));
                    }
                },
            }
        }
        iter.remaining()
    }
}

impl<'c> IntoBlockEncoder for &'c CustomConfig {
    type BlockEncoder = ScalarBlockEncoder<Self>;

    /// A table given at run time is encoded by the portable encoder.
    fn into_block_encoder(self) -> (encoder: Self::BlockEncoder)
        ensures
            encoder.config() == self,
    {
        ScalarBlockEncoder::new(self)
    }
}

/// Encoders that share an alphabet can stand in for one another: run on
/// the same input and the same output, with the same done to the output
/// remainder afterwards, they leave the same output behind, byte for byte,
/// and hand back the same remainders.
pub proof fn lemma_encoders_are_substitutable<E1: BlockEncoder, E2: BlockEncoder>(
    first: E1,
    second: E2,
    input: Seq<u8>,
    output_before: Seq<u8>,
    output_rest_after: Seq<u8>,
    first_output: Seq<u8>,
    first_input_rest: Seq<u8>,
    first_output_rest: Seq<u8>,
    second_output: Seq<u8>,
    second_input_rest: Seq<u8>,
    second_output_rest: Seq<u8>,
)
    requires
        first.alphabet() == second.alphabet(),
        blocks_encoded(
            first.alphabet(),
            input,
            output_before,
            first_output,
            first_input_rest,
            first_output_rest,
            output_rest_after,
        ),
        blocks_encoded(
            second.alphabet(),
            input,
            output_before,
            second_output,
            second_input_rest,
            second_output_rest,
            output_rest_after,
        ),
    ensures
        first_output == second_output,
        first_input_rest == second_input_rest,
        first_output_rest == second_output_rest,
{
}

} // verus!

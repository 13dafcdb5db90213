//! The block cursor: pairs an input slice with an output slice as a finite
//! run of fixed-size windows.

use vstd::prelude::*;

verus! {

/// Bytes that one input window holds.
pub const INPUT_CHUNK_SIZE: usize = 26;

/// Bytes by which the input cursor moves on after a window. It is smaller
/// than the window, so the last two bytes of a window are the first two of
/// the next.
pub const INPUT_STRIDE: usize = 24;

/// Bytes that one output window holds.
pub const OUTPUT_CHUNK_SIZE: usize = 32;

/// Bytes by which the output cursor moves on after a window. Output windows
/// are handed out for writing, each exclusively, so they do not overlap.
pub const OUTPUT_STRIDE: usize = 32;

/// How many windows of `chunk` bytes, each starting `stride` bytes after the
/// one before, fit into `len` bytes.
pub open spec fn window_count(len: int, chunk: int, stride: int) -> int {
    if len < chunk {
        0
    } else {
        (len - chunk) / stride + 1
    }
}

/// How many window pairs a cursor yields over an input of `input_len` bytes
/// and an output of `output_len` bytes: it stops as soon as either side has
/// less than a window left.
pub open spec fn block_count(input_len: int, output_len: int) -> int {
    let by_input = window_count(input_len, INPUT_CHUNK_SIZE as int, INPUT_STRIDE as int);
    let by_output = window_count(output_len, OUTPUT_CHUNK_SIZE as int, OUTPUT_STRIDE as int);
    if by_input <= by_output {
        by_input
    } else {
        by_output
    }
}

/// Whole blocks are encoded at four bytes out for every three bytes in:
/// what the cursor passes on the output side is four thirds of what it
/// passes on the input side, and both lie inside their slices.
pub proof fn lemma_output_is_four_thirds_of_input(input_len: int, output_len: int)
    requires
        0 <= input_len,
        0 <= output_len,
    ensures
        ({
            let blocks = block_count(input_len, output_len);
            let consumed = 24 * blocks;
            let produced = 32 * blocks;
            &&& 0 <= blocks
            &&& consumed <= input_len
            &&& produced <= output_len
            &&& 3 * produced == 4 * consumed
        }),
{
}

/// With less than one window on either side there is no block at all.
pub proof fn lemma_short_slices_have_no_block(input_len: int, output_len: int)
    requires
        0 <= input_len,
        0 <= output_len,
    ensures
        block_count(input_len, output_len) == 0 <==> input_len < 26 || output_len < 32,
{
}

/// A cursor over an input slice and an output slice.
///
/// It owns no bytes. What it holds is what it has not yet passed: the input
/// from the next window on, and the output from the next window on.
pub struct BlockIter<'a, 'b> {
    /// The input from the next window on.
    pub input: &'a [u8],
    /// The output from the next window on.
    pub output: &'b mut [u8],
}

impl<'a, 'b> BlockIter<'a, 'b> {
    /// Whether no further window pair will come.
    pub open spec fn exhausted(&self) -> bool {
        self.input@.len() < INPUT_CHUNK_SIZE || self.output@.len() < OUTPUT_CHUNK_SIZE
    }

    /// Starts a cursor at the head of both slices.
    pub fn new(input: &'a [u8], output: &'b mut [u8]) -> (iter: Self)
        ensures
            iter.input@ == input@,
            iter.output@ == old(output)@,
            final(iter.output)@ == final(output)@,
    {
        BlockIter { input, output }
    }

    /// Yields the next window pair and moves past it, or yields nothing and
    /// stays where it is once either side has less than a window left.
    ///
    /// The input window is the next 26 bytes, and the cursor moves 24 on. The
    /// output window is the next 32 bytes, and the cursor moves past them:
    /// what is written through the window is what the output holds there
    /// in the end.
    pub fn next(&mut self) -> (pair: Option<(&'a [u8], &'b mut [u8])>)
        ensures
            match pair {
                None => old(self).exhausted() && *final(self) == *old(self),
                Some((input_block, output_block)) => {
                    &&& !old(self).exhausted()
                    &&& input_block@ == old(self).input@.subrange(0, 26)
                    &&& output_block@ == old(self).output@.subrange(0, 32)
                    &&& final(self).input@ == old(self).input@.skip(24)
                    &&& final(self).output@ == old(self).output@.skip(32)
                    &&& final(old(self).output)@ == final(output_block)@
                        + final(final(self).output)@
                },
            },
    {
        if self.input.len() < INPUT_CHUNK_SIZE || self.output.len() < OUTPUT_CHUNK_SIZE {
            return None;
        }
        let (input_block, _) = self.input.split_at(INPUT_CHUNK_SIZE);
        let (_, input_rest) = self.input.split_at(INPUT_STRIDE);
        self.input = input_rest;
        let mut output: &'b mut [u8] = &mut [];
        core::mem::swap(&mut self.output, &mut output);
        let (output_block, output_rest) = output.split_at_mut(OUTPUT_STRIDE);
        self.output = output_rest;
        Some((input_block, output_block))
    }

    /// Gives up the cursor for the two slices that it has not passed.
    pub fn remaining(self) -> (rest: (&'a [u8], &'b mut [u8]))
        ensures
            rest.0@ == self.input@,
            rest.1@ == old(self.output)@,
            final(rest.1)@ == final(self.output)@,
    {
        (self.input, self.output)
    }
}

} // verus!

//! Encoding: the bit-stream model, the block cursor and the block encoders.

pub mod bits;
pub mod block;
pub mod block_iter;

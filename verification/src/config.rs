//! Alphabets: the mapping from a six-bit value to the byte that stands for it.

use crate::u6::U6;
use vstd::prelude::*;

verus! {

/// A pure, total mapping from six-bit values to output bytes.
///
/// A configuration is a small value that is handed around by copy; it holds
/// no mutable state, so any number of encoders may share one.
pub trait Config: Copy {
    /// The alphabet as a table: entry `v` is the byte that stands for the
    /// six-bit value `v`.
    spec fn alphabet(self) -> Seq<u8>;

    /// The alphabet has an entry for each of the 64 six-bit values, and no
    /// other.
    proof fn lemma_alphabet_len(self)
        ensures
            self.alphabet().len() == 64,
    ;

    /// Looks up the byte that stands for `input`.
    fn encode_u6(self, input: U6) -> (byte: u8)
        ensures
            byte == self.alphabet()[input@ as int],
    ;
}

/// An alphabet given as a table of 64 bytes.
///
/// Whether the table is a sensible alphabet (distinct, printable symbols) is
/// for whoever builds it to decide: encoding works with any table.
#[derive(Debug, Clone, Copy)]
pub struct CustomConfig {
    encode_table: [u8; 64],
}

impl CustomConfig {
    /// The table, entry `v` being the byte for the six-bit value `v`.
    pub closed spec fn table(&self) -> Seq<u8> {
        self.encode_table@
    }

    /// Makes the configuration whose symbol for `v` is `table[v]`.
    pub fn from_table(table: [u8; 64]) -> (config: CustomConfig)
        ensures
            config.table() == table@,
    {
        CustomConfig { encode_table: table }
    }
}

impl<'c> Config for &'c CustomConfig {
    open spec fn alphabet(self) -> Seq<u8> {
        self.table()
    }

    proof fn lemma_alphabet_len(self) {
    }

    fn encode_u6(self, input: U6) -> (byte: u8) {
        let index: u8 = input.get();
        self.encode_table[index as usize]
    }
}

} // verus!

use vstd::prelude::*;

use crate::text::{chars_of, concat3, decimal_of, decimal_text};

verus! {

/// A stand-in tokenizer: each character becomes its position modulo the
/// vocabulary size.
pub struct Tokenizer {
    vocab_size: usize,
}

pub const DEFAULT_VOCAB_SIZE: usize = 32000;

impl Tokenizer {
    pub closed spec fn vocab(&self) -> nat {
        self.vocab_size as nat
    }

    pub fn new(vocab_size: usize) -> (r: Self)
        ensures
            r.vocab() == vocab_size,
    {
        Tokenizer { vocab_size }
    }

    /// One token per character of `text`: its position modulo the vocabulary
    /// size, as `i32` (truncating as a cast does).
    pub fn encode(&self, text: &str) -> (r: Vec<i32>)
        requires
            self.vocab() > 0,
        ensures
            r@.len() == text@.len(),
            forall|i: int| 0 <= i < r@.len() ==> #[trigger] r@[i] == ((i % self.vocab() as int) as usize) as i32,
    {
        let chars = chars_of(text);
        let mut out: Vec<i32> = Vec::new();
        let mut i: usize = 0;
        while i < chars.len()
            invariant
                self.vocab() > 0,
                i <= chars.len(),
                out@.len() == i,
                forall|j: int| 0 <= j < i ==> #[trigger] out@[j] == ((j % self.vocab() as int) as usize) as i32,
            decreases chars.len() - i,
        {
            out.push((i % self.vocab_size) as i32);
            i = i + 1;
        }
        out
    }

    /// A summary of `tokens`: `Decoded <n> tokens`.
    pub fn decode(&self, tokens: &[i32]) -> (r: String)
        ensures
            r@ == "Decoded "@ + decimal_of(tokens@.len()) + " tokens"@,
    {
        let n = decimal_text(tokens.len());
        concat3("Decoded ", n.as_str(), " tokens")
    }
}

impl Default for Tokenizer {
    fn default() -> (r: Self)
        ensures
            r.vocab() == DEFAULT_VOCAB_SIZE,
    {
        Self::new(DEFAULT_VOCAB_SIZE)
    }
}

} // verus!

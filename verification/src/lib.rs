//! Phonetic name coding.
//!
//! This crate provides the Lein name-coding procedure: a deterministic
//! transformation of a string (typically a surname) into a short
//! fixed-length code approximating its pronunciation, for use in fuzzy
//! name matching and record linkage.  The encoder is exposed through the
//! [`PhonicsEncoder`] trait, implemented by [`Lein`], and every step of
//! the encoding pipeline is specified and verified.

use vstd::prelude::*;

mod lein;
pub mod utils;

pub use lein::Lein;

verus! {

/// Signals an error has been encountered by one of the encoders implementing
/// the [`PhonicsEncoder`] trait.
#[derive(Debug)]
pub enum PhonicsError {
    /// Signals that an unknown character was found and could not be processed.
    /// Phonetic spelling algorithms typically accept a limited range of inputs;
    /// an encoder may choose to ignore characters outside that range or to
    /// report them with this error.
    UnknownCharactersFound,
}

/// A trait for phonetic encoding of a string.
///
/// Instances of [`PhonicsEncoder`] provide an encoder for strings.  An encoder
/// is not expected to maintain state, as phonetic encoders do not typically
/// include an updating mechanism.
pub trait PhonicsEncoder: Sized {
    /// Return a new encoder with its default configuration.
    fn new() -> Self;

    /// Encode the string given in `word` and return the result or an error.
    fn encode(&self, word: &str) -> Result<String, PhonicsError>;
}

/// A generic factory for phonetic encoders: it wraps any [`PhonicsEncoder`]
/// and forwards encoding requests to it.
pub struct Phonics<P: PhonicsEncoder> {
    encoder: P,
}

impl<P: PhonicsEncoder> PhonicsEncoder for Phonics<P> {
    fn new() -> Phonics<P> {
        Phonics { encoder: P::new() }
    }

    fn encode(&self, word: &str) -> Result<String, PhonicsError> {
        self.encoder.encode(word)
    }
}

} // verus!

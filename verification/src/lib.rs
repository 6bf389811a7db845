//! Authorization tokens signed with a Tezos key.
//!
//! A token is one line of text: who asks, which orbit is meant, what is to
//! be done there, when it was asked, and a signature over all of that. This
//! crate reads a token from its text, writes it back, rebuilds the exact
//! bytes that were signed, checks the signature, and decides whether the
//! signer may act on the orbit.
//!
//! The grammar, the encoder and the envelope are verified against the
//! functions of `grammar`, `token` and `envelope`, and `laws` proves that
//! reading and writing are inverse to each other. Hexadecimal coding and
//! everything about keys and signatures is done by the `hex` and `ssi`
//! crates, behind the contracts in `hexcode` and `signature`.

pub mod action;
pub mod envelope;
pub mod grammar;
pub mod hexcode;
pub mod laws;
pub mod manifest;
pub mod orbit;
pub mod parser;
pub mod request;
pub mod signature;
pub mod text;
pub mod token;

//! Checking the signature of a token: the key and the signature are decoded
//! from their Tezos text, and the signature is checked over the bytes that
//! are signed for the token. Decoding and checking are the `ssi` crate's.

use crate::envelope::MAX_MESSAGE_LEN;
use crate::token::{TezosAuthorizationString, TokenView};
use vstd::prelude::*;
use vstd::string::*;
use vstd::utf8::encode_utf8;

verus! {

/// A key as the `ssi` crate holds it.
#[verifier::external_type_specification]
#[verifier::external_body]
pub struct ExJwk(ssi::jwk::JWK);

/// A signature scheme as the `ssi` crate names it.
#[verifier::external_type_specification]
#[verifier::external_body]
pub struct ExAlgorithm(ssi::jwk::Algorithm);

/// The error of the `ssi` crate's key decoder and signature check.
#[verifier::external_type_specification]
#[verifier::external_body]
pub struct ExSsiError(ssi::error::Error);

/// The error of the `ssi` crate's signature decoder.
#[verifier::external_type_specification]
#[verifier::external_body]
pub struct ExTzsigError(ssi::tzkey::DecodeTezosSignatureError);

/// Why a token's signature was not accepted.
#[derive(Debug, Clone, Copy, PartialEq, Eq)]
pub enum VerificationError {
    /// The key text is malformed, or of a scheme that is not supported.
    InvalidKey,
    /// The signature text is malformed.
    InvalidSignature,
    /// Key and signature are well formed, and the signature is not one of
    /// that key over the token.
    SignatureMismatch,
}

/// The shortest key text that is handed to the decoder, in bytes. A key text
/// is a four-character scheme prefix and the Base58Check form of four prefix
/// bytes, the key and a four-byte checksum; a text of fewer than ten bytes
/// that starts with a scheme prefix holds fewer than eight bytes, and so no
/// key.
pub const MIN_KEY_TEXT_LEN: usize = 10;

/// The key that `ssi::tzkey::jwk_from_tezos_key` reads from a key text, if
/// it accepts the text.
pub uninterp spec fn tezos_key(pk: Seq<char>) -> Option<ssi::jwk::JWK>;

/// The scheme that a key of the `ssi` crate names in its `algorithm` field,
/// if it names one.
pub uninterp spec fn key_scheme(key: ssi::jwk::JWK) -> Option<ssi::jwk::Algorithm>;

/// The signature bytes that `ssi::tzkey::decode_tzsig` reads from a
/// signature text, if it accepts the text.
pub uninterp spec fn tezos_signature(sig: Seq<char>) -> Option<Seq<u8>>;

/// Whether `ssi::jws::verify_bytes` accepts a signature over data, with a
/// key and under a scheme.
pub uninterp spec fn signature_holds(
    algorithm: ssi::jwk::Algorithm,
    data: Seq<u8>,
    key: ssi::jwk::JWK,
    signature: Seq<u8>,
) -> bool;

/// `ssi::tzkey::jwk_from_tezos_key`: decodes a key text. The result depends
/// on the text alone; the contract names the key, and whether there is one.
/// Texts shorter than `MIN_KEY_TEXT_LEN` are kept away: on some of them the
/// decoder would cut the prefix bytes off a shorter byte string.
#[verifier::external_body]
fn key_from_text(pk: &str) -> (r: Result<ssi::jwk::JWK, ssi::error::Error>)
    requires
        pk.spec_bytes().len() >= MIN_KEY_TEXT_LEN,
    ensures
        match r {
            Ok(key) => tezos_key(pk@) == Some(key),
            Err(_) => tezos_key(pk@) is None,
        },
{
    ssi::tzkey::jwk_from_tezos_key(pk)
}

/// The `algorithm` field of a key of the `ssi` crate: the contract names
/// what it holds.
#[verifier::external_body]
fn key_algorithm(key: &ssi::jwk::JWK) -> (r: Option<ssi::jwk::Algorithm>)
    ensures
        r == key_scheme(*key),
{
    key.algorithm
}

/// `ssi::tzkey::decode_tzsig`: decodes a signature text into the scheme that
/// its prefix names and the signature bytes. The result depends on the text
/// alone; the contract names the bytes, and whether there are any.
#[verifier::external_body]
fn signature_from_text(sig: &str) -> (r: Result<
    (ssi::jwk::Algorithm, Vec<u8>),
    ssi::tzkey::DecodeTezosSignatureError,
>)
    ensures
        match r {
            Ok((_, bytes)) => tezos_signature(sig@) == Some(bytes@),
            Err(_) => tezos_signature(sig@) is None,
        },
{
    ssi::tzkey::decode_tzsig(sig)
}

/// `ssi::jws::verify_bytes`: checks a signature over data with a key, under
/// a scheme. The result depends on the four arguments alone; the contract
/// names whether the signature is accepted.
#[verifier::external_body]
fn check_signature(
    algorithm: ssi::jwk::Algorithm,
    data: &[u8],
    key: &ssi::jwk::JWK,
    signature: &[u8],
) -> (r: Result<(), ssi::error::Error>)
    ensures
        r is Ok <==> signature_holds(algorithm, data@, *key, signature@),
{
    ssi::jws::verify_bytes(algorithm, data, key, signature)
}

/// The verdict on a token whose key and signature were decoded, from whether
/// the key names a scheme, whether the bytes to sign could be written, and
/// whether the check passed.
pub fn verdict(scheme_named: bool, bytes_written: bool, check_passed: bool) -> (r: Result<
    (),
    VerificationError,
>)
    ensures
        r == verdict_of(scheme_named, bytes_written, check_passed),
{
    if !scheme_named {
        Err(VerificationError::InvalidKey)
    } else if bytes_written && check_passed {
        Ok(())
    } else {
        Err(VerificationError::SignatureMismatch)
    }
}

/// The verdict as a function: `InvalidKey` for a key without a scheme,
/// success if the bytes were written and the check passed, and a mismatch
/// for anything else.
pub open spec fn verdict_of(scheme_named: bool, bytes_written: bool, check_passed: bool) -> Result<
    (),
    VerificationError,
> {
    if !scheme_named {
        Err(VerificationError::InvalidKey)
    } else if bytes_written && check_passed {
        Ok(())
    } else {
        Err(VerificationError::SignatureMismatch)
    }
}

/// A key text that is not decoded, or that the decoder rejects.
pub open spec fn key_rejected(pk: Seq<char>) -> bool {
    encode_utf8(pk).len() < MIN_KEY_TEXT_LEN || tezos_key(pk) is None
}

/// The canonical text of a token is too long for the envelope.
pub open spec fn too_long(t: TokenView) -> bool {
    encode_utf8(t.canonical()).len() > MAX_MESSAGE_LEN
}

/// What checking the signature of a token gives.
///
/// A key text that is rejected gives `InvalidKey`. Otherwise a signature
/// text that is rejected gives `InvalidSignature`. Otherwise a key that names
/// no scheme gives `InvalidKey`. Otherwise the token is accepted exactly if
/// its canonical text fits the envelope and the signature holds, under the
/// scheme of the key, over the bytes that are signed for the token; if not,
/// that is a `SignatureMismatch`.
pub open spec fn verified(t: TokenView) -> Result<(), VerificationError> {
    if key_rejected(t.pk) {
        Err(VerificationError::InvalidKey)
    } else if tezos_signature(t.sig) is None {
        Err(VerificationError::InvalidSignature)
    } else {
        let key = tezos_key(t.pk).unwrap();
        verdict_of(
            key_scheme(key) is Some,
            !too_long(t),
            signature_holds(
                key_scheme(key).unwrap(),
                t.signed_bytes(),
                key,
                tezos_signature(t.sig).unwrap(),
            ),
        )
    }
}

impl TezosAuthorizationString {
    /// Checks the signature of the token: the result is `verified` of the
    /// token. In particular it is `Ok` exactly if the key text and the
    /// signature text decode, the key names a scheme, the canonical text fits
    /// the envelope, and the signature holds over the signed bytes.
    pub fn verify(&self) -> (r: Result<(), VerificationError>)
        ensures
            r == verified(self@),
            r is Ok <==> {
                &&& !key_rejected(self.pk@)
                &&& tezos_signature(self.sig@) is Some
                &&& key_scheme(tezos_key(self.pk@).unwrap()) is Some
                &&& !too_long(self@)
                &&& signature_holds(
                    key_scheme(tezos_key(self.pk@).unwrap()).unwrap(),
                    self@.signed_bytes(),
                    tezos_key(self.pk@).unwrap(),
                    tezos_signature(self.sig@).unwrap(),
                )
            },
            too_long(self@) ==> r is Err,
    {
        if self.pk.as_str().as_bytes().len() < MIN_KEY_TEXT_LEN {
            return Err(VerificationError::InvalidKey);
        }
        let key = match key_from_text(self.pk.as_str()) {
            Ok(key) => key,
            Err(_) => {
                return Err(VerificationError::InvalidKey);
            },
        };
        let sig = match signature_from_text(self.sig.as_str()) {
            Ok((_, sig)) => sig,
            Err(_) => {
                return Err(VerificationError::InvalidSignature);
            },
        };
        let algorithm = match key_algorithm(&key) {
            Some(algorithm) => algorithm,
            None => {
                return verdict(false, false, false);
            },
        };
        let bytes = match self.serialize_for_verification() {
            Ok(bytes) => bytes,
            Err(_) => {
                return verdict(true, false, false);
            },
        };
        let check = check_signature(algorithm, bytes.as_slice(), &key, sig.as_slice());
        verdict(true, true, check.is_ok())
    }
}

} // verus!

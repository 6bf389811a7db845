//! The authorization token, its canonical text and the bytes that are signed
//! for it.

use crate::action::{serialize_action, Action, ActionView};
use crate::envelope::{encode_string, envelope, MAX_MESSAGE_LEN};
use crate::orbit::OrbitId;
use crate::text::space;
use vstd::prelude::*;
use vstd::string::*;

verus! {

/// A signed request against an orbit: who asks, for what, when, and the
/// signature over all of it.
#[derive(Debug, Clone)]
pub struct TezosAuthorizationString {
    pub sig: String,
    pub domain: String,
    pub pk: String,
    pub pkh: String,
    pub timestamp: String,
    pub orbit: OrbitId,
    pub action: Action,
}

/// A token as a mathematical value.
pub struct TokenView {
    pub sig: Seq<char>,
    pub domain: Seq<char>,
    pub pk: Seq<char>,
    pub pkh: Seq<char>,
    pub timestamp: Seq<char>,
    pub orbit: Seq<char>,
    pub action: ActionView,
}

impl View for TezosAuthorizationString {
    type V = TokenView;

    open spec fn view(&self) -> TokenView {
        TokenView {
            sig: self.sig@,
            domain: self.domain@,
            pk: self.pk@,
            pkh: self.pkh@,
            timestamp: self.timestamp@,
            orbit: self.orbit@,
            action: self.action@,
        }
    }
}

/// Why a token could not be written out for signing.
#[derive(Debug, Clone, Copy, PartialEq, Eq)]
pub enum SerializeError {
    /// The canonical text is longer than the envelope's length field can say.
    MessageTooLong,
}

/// The words that open every token.
pub open spec fn preamble() -> Seq<char> {
    seq![
        'T', 'e', 'z', 'o', 's', ' ', 'S', 'i', 'g', 'n', 'e', 'd', ' ', 'M', 'e', 's', 's', 'a',
        'g', 'e', ':',
    ]
}

impl TokenView {
    /// The canonical text: the preamble, then the domain, the timestamp, the
    /// key, the key hash, the orbit and the action, each behind one space.
    /// The signature is no part of it.
    pub open spec fn canonical(self) -> Seq<char> {
        preamble() + space() + self.domain + space() + self.timestamp + space() + self.pk
            + space() + self.pkh + space() + self.orbit + space() + self.action.text()
    }

    /// The token as it travels: the canonical text, a space and the
    /// signature.
    pub open spec fn wire(self) -> Seq<char> {
        self.canonical() + space() + self.sig
    }

    /// The bytes that the signature is made over: the canonical text in
    /// UTF-8 inside its envelope.
    pub open spec fn signed_bytes(self) -> Seq<u8> {
        envelope(vstd::utf8::encode_utf8(self.canonical()))
    }
}

impl TezosAuthorizationString {
    /// The requested action.
    pub fn action(&self) -> (a: &Action)
        ensures
            a == self.action,
    {
        &self.action
    }

    /// The orbit that the request is made against.
    pub fn target_orbit(&self) -> (o: &OrbitId)
        ensures
            o == self.orbit,
    {
        &self.orbit
    }

    /// Writes the canonical text. There is no token for which this fails.
    pub fn serialize(&self) -> (r: Result<String, SerializeError>)
        ensures
            r matches Ok(text) && text@ == self@.canonical(),
    {
        Ok(self.canonical_text())
    }

    /// Writes the canonical text.
    fn canonical_text(&self) -> (text: String)
        ensures
            text@ == self@.canonical(),
    {
        let mut text = String::from_str("Tezos Signed Message:");
        proof {
            reveal_strlit("Tezos Signed Message:");
            reveal_strlit(" ");
            assert("Tezos Signed Message:"@ =~= preamble());
            assert(" "@ =~= space());
        }
        text.append(" ");
        text.append(self.domain.as_str());
        text.append(" ");
        text.append(self.timestamp.as_str());
        text.append(" ");
        text.append(self.pk.as_str());
        text.append(" ");
        text.append(self.pkh.as_str());
        text.append(" ");
        text.append(self.orbit.as_str());
        text.append(" ");
        let action = serialize_action(&self.action);
        text.append(action.as_str());
        text
    }

    /// Writes the token as it travels: the canonical text, a space and the
    /// signature.
    pub fn to_string(&self) -> (text: String)
        ensures
            text@ == self@.wire(),
    {
        let mut text = self.canonical_text();
        text.append(" ");
        proof {
            reveal_strlit(" ");
            assert(" "@ =~= space());
        }
        text.append(self.sig.as_str());
        text
    }

    /// The bytes that are signed for the token, or an error if the canonical
    /// text is too long for the envelope.
    pub fn serialize_for_verification(&self) -> (r: Result<Vec<u8>, SerializeError>)
        ensures
            match r {
                Ok(bytes) => bytes@ == self@.signed_bytes(),
                Err(e) => e == SerializeError::MessageTooLong,
            },
            r is Ok <==> vstd::utf8::encode_utf8(self@.canonical()).len() <= MAX_MESSAGE_LEN,
    {
        let text = self.canonical_text();
        if text.as_str().as_bytes().len() > MAX_MESSAGE_LEN {
            return Err(SerializeError::MessageTooLong);
        }
        Ok(encode_string(text.as_str()))
    }
}

} // verus!

//! The manifest of an orbit, and the decision whether a token may act on it:
//! the signer must be a controller of the orbit, and the signature must hold.

use crate::orbit::OrbitId;
use crate::signature::{too_long, verified, VerificationError};
use crate::token::{TezosAuthorizationString, TokenView};
use vstd::prelude::*;
use vstd::string::*;

verus! {

/// Why a token was not authorized.
#[derive(Debug, Clone, Copy, PartialEq, Eq)]
pub enum AuthorizationError {
    /// The signer is no controller of the orbit.
    NotAuthorized,
    /// The signer is a controller, and the signature was not accepted.
    Verification(VerificationError),
}

/// The method and network that a key hash is written behind.
pub open spec fn identity_prefix() -> Seq<char> {
    seq!['d', 'i', 'd', ':', 'p', 'k', 'h', ':', 't', 'z', ':']
}

/// The fragment that names the verification method, with its `#`.
pub open spec fn identity_fragment() -> Seq<char> {
    seq!['#', 'T', 'e', 'z', 'o', 's', 'M', 'e', 't', 'h', 'o', 'd', '2', '0', '2', '1']
}

/// The identity under which the holder of a key hash is listed as a
/// controller: `did:pkh:tz:`, the key hash, `#TezosMethod2021`.
pub open spec fn requester_identity(pkh: Seq<char>) -> Seq<char> {
    identity_prefix() + pkh + identity_fragment()
}

/// Writes the identity of the holder of a key hash.
pub fn requester(pkh: &str) -> (id: String)
    ensures
        id@ == requester_identity(pkh@),
{
    let mut id = String::from_str("did:pkh:tz:");
    id.append(pkh);
    id.append("#TezosMethod2021");
    proof {
        reveal_strlit("did:pkh:tz:");
        reveal_strlit("#TezosMethod2021");
        assert("did:pkh:tz:"@ =~= identity_prefix());
        assert("#TezosMethod2021"@ =~= identity_fragment());
    }
    id
}

/// An orbit and the identities of its controllers.
#[derive(Debug, Clone)]
pub struct Manifest {
    id: OrbitId,
    invokers: Vec<String>,
}

impl Manifest {
    /// The orbit that the manifest is of.
    pub closed spec fn orbit(&self) -> Seq<char> {
        self.id@
    }

    /// The identities that the manifest lists.
    pub closed spec fn listed(&self) -> Seq<Seq<char>> {
        self.invokers.deep_view()
    }

    /// The controllers of an orbit as far as this manifest knows them: the
    /// listed identities for its own orbit, none for any other.
    pub open spec fn controllers(&self, orbit: Seq<char>) -> Set<Seq<char>> {
        if orbit == self.orbit() {
            self.listed().to_set()
        } else {
            Set::empty()
        }
    }

    /// The manifest of `id` with the given controllers.
    pub fn new(id: OrbitId, invokers: Vec<String>) -> (m: Manifest)
        ensures
            m.orbit() == id@,
            m.listed() == invokers.deep_view(),
    {
        Manifest { id, invokers }
    }

    /// The orbit that the manifest is of.
    pub fn id(&self) -> (id: &OrbitId)
        ensures
            id@ == self.orbit(),
    {
        &self.id
    }

    /// The identities that the manifest lists.
    pub fn invokers(&self) -> (list: &Vec<String>)
        ensures
            list.deep_view() == self.listed(),
    {
        &self.invokers
    }

    /// Whether `identity` is a controller of `orbit`.
    pub fn is_controller(&self, orbit: &OrbitId, identity: &String) -> (b: bool)
        ensures
            b == self.controllers(orbit@).contains(identity@),
    {
        if !self.id.same(orbit) {
            return false;
        }
        let mut i: usize = 0;
        while i < self.invokers.len()
            invariant
                i <= self.invokers.len(),
                orbit@ == self.orbit(),
                forall|j: int| 0 <= j < i ==> self.listed()[j] != identity@,
            decreases self.invokers.len() - i,
        {
            assert(self.listed()[i as int] == self.invokers[i as int]@);
            if self.invokers[i] == *identity {
                assert(self.listed().contains(identity@));
                return true;
            }
            i = i + 1;
        }
        assert(!self.listed().contains(identity@));
        false
    }

    /// What the manifest decides on a token: `NotAuthorized` for a signer who
    /// is no controller of the orbit that the token targets, whatever the
    /// signature, and for a controller what checking the signature gives.
    pub open spec fn decision(&self, t: TokenView) -> Result<(), AuthorizationError> {
        decision_of(
            self.controllers(t.orbit).contains(requester_identity(t.pkh)),
            verified(t),
        )
    }

    /// Decides whether a token may act: its signer must be a controller of
    /// the orbit that the token targets, and its signature must hold. The
    /// result is `decision` of the token: `Ok` exactly if the signer is a
    /// controller and the signature is verified.
    pub fn authorize(&self, token: &TezosAuthorizationString) -> (r: Result<
        (),
        AuthorizationError,
    >)
        ensures
            r == self.decision(token@),
            r is Ok <==> self.controllers(token.orbit@).contains(
                requester_identity(token.pkh@),
            ) && verified(token@) is Ok,
            r == Err::<(), AuthorizationError>(AuthorizationError::NotAuthorized)
                <==> !self.controllers(token.orbit@).contains(requester_identity(token.pkh@)),
            too_long(token@) ==> r is Err,
    {
        let identity = requester(token.pkh.as_str());
        if !self.is_controller(&token.orbit, &identity) {
            return Err(AuthorizationError::NotAuthorized);
        }
        decide(true, token.verify())
    }
}

/// The decision as a function: `NotAuthorized` for a signer who is no
/// controller, and else the result of the check, unchanged.
pub open spec fn decision_of(
    is_controller: bool,
    verification: Result<(), VerificationError>,
) -> Result<(), AuthorizationError> {
    if !is_controller {
        Err(AuthorizationError::NotAuthorized)
    } else {
        match verification {
            Ok(()) => Ok(()),
            Err(e) => Err(AuthorizationError::Verification(e)),
        }
    }
}

/// The decision on a token, from whether its signer is a controller of the
/// orbit and from what checking its signature gave: `NotAuthorized` for a
/// signer who is no controller, and else the result of the check, unchanged.
pub fn decide(is_controller: bool, verification: Result<(), VerificationError>) -> (r: Result<
    (),
    AuthorizationError,
>)
    ensures
        r == decision_of(is_controller, verification),
{
    if !is_controller {
        return Err(AuthorizationError::NotAuthorized);
    }
    match verification {
        Ok(()) => Ok(()),
        Err(e) => Err(AuthorizationError::Verification(e)),
    }
}

} // verus!

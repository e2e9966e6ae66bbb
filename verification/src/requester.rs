//! Who asks: the credential that comes with a request, and what it resolves to.

use crate::crypto::{address_of_public, public_to_address, recover, recovered_public};
use crate::error::Error;
use crate::hash::{Address, Public};
use crate::{RequestSignature, ServerKeyId};
use vstd::prelude::*;
use vstd::std_specs::convert::FromSpecImpl;
use vstd::string::StringExecFns;

verus! {

/// Requester identification data.
#[derive(Debug, Clone, Copy, PartialEq, Eq, Hash)]
pub enum Requester {
    /// Requested with server key id signature.
    Signature(RequestSignature),
    /// Requested with public key.
    Public(Public),
    /// Requested with verified address.
    Address(Address),
}

/// The error text for a signature from which no public key can be recovered:
/// a fixed prefix, then the reason that the recovery gave.
pub open spec fn bad_signature_text(reason: Seq<char>) -> Seq<char> {
    "bad signature: "@ + reason
}

/// The error text for a requester that is known by its address only.
pub open spec fn no_public_text() -> Seq<char> {
    "cannot recover public from address"@
}

/// Builds the error text for a signature that does not recover, from the
/// reason that the recovery gave.
pub fn bad_signature(reason: &str) -> (r: String)
    ensures
        r@ == bad_signature_text(reason@),
{
    String::from_str("bad signature: ").concat(reason)
}

impl Requester {
    /// The public key that the requester resolves to for the given server key
    /// id, or the text of the error.
    pub open spec fn spec_public(self, server_key_id: Seq<u8>) -> Result<Seq<u8>, Seq<char>> {
        match self {
            Requester::Signature(signature) => match recovered_public(
                signature@,
                server_key_id,
            ) {
                Ok(public) => Ok(public),
                Err(reason) => Err(bad_signature_text(reason)),
            },
            Requester::Public(public) => Ok(public@),
            Requester::Address(_) => Err(no_public_text()),
        }
    }

    /// The address that the requester resolves to for the given server key id,
    /// or the text of the error.
    pub open spec fn spec_address(self, server_key_id: Seq<u8>) -> Result<Seq<u8>, Seq<char>> {
        match self {
            Requester::Address(address) => Ok(address@),
            _ => match self.spec_public(server_key_id) {
                Ok(public) => Ok(address_of_public(public)),
                Err(text) => Err(text),
            },
        }
    }

    /// Why the requester does not resolve to a public key, where it does
    /// not: its signature does not recover, or it is known by address only.
    pub open spec fn public_error(self) -> Error {
        match self {
            Requester::Address(_) => Error::BadRequesterFormat,
            _ => Error::InvalidSignature,
        }
    }

    /// Resolves the requester to its public key. A signature must be one of
    /// the server key id, from which the key of the signer is recovered; an
    /// address has no public key to offer.
    pub fn public(&self, server_key_id: &ServerKeyId) -> (r: Result<Public, String>)
        ensures
            self.spec_public(server_key_id@) == (match r {
                Ok(public) => Ok::<Seq<u8>, Seq<char>>(public@),
                Err(text) => Err::<Seq<u8>, Seq<char>>(text@),
            }),
    {
        match self {
            Requester::Signature(signature) => match recover(signature, server_key_id) {
                Ok(public) => Ok(public),
                Err(reason) => Err(bad_signature(reason.as_str())),
            },
            Requester::Public(public) => Ok(*public),
            Requester::Address(_) => Err(String::from_str("cannot recover public from address")),
        }
    }

    /// Resolves the requester to its address: the given address itself, or
    /// the address that belongs to its public key.
    pub fn address(&self, server_key_id: &ServerKeyId) -> (r: Result<Address, String>)
        ensures
            self.spec_address(server_key_id@) == (match r {
                Ok(address) => Ok::<Seq<u8>, Seq<char>>(address@),
                Err(text) => Err::<Seq<u8>, Seq<char>>(text@),
            }),
    {
        match self {
            Requester::Address(address) => Ok(*address),
            _ => match self.public(server_key_id) {
                Ok(public) => Ok(public_to_address(&public)),
                Err(text) => Err(text),
            },
        }
    }
}

impl Requester {
    /// Resolves the requester to its public key, for an operation that
    /// encrypts its result to the requester. A signature that does not
    /// recover is an invalid signature; a requester that is known by its
    /// address only has the wrong format.
    pub fn resolve_public(&self, server_key_id: &ServerKeyId) -> (r: Result<Public, Error>)
        ensures
            match self.spec_public(server_key_id@) {
                Ok(public) => r is Ok && r->Ok_0@ == public,
                Err(_) => r == Err::<Public, Error>(self.public_error()),
            },
    {
        match self.public(server_key_id) {
            Ok(public) => Ok(public),
            Err(_) => match self {
                Requester::Address(_) => Err(Error::BadRequesterFormat),
                _ => Err(Error::InvalidSignature),
            },
        }
    }

    /// Resolves the requester to its address, for a question to the access
    /// control list. A signature that does not recover is an invalid
    /// signature.
    pub fn resolve_address(&self, server_key_id: &ServerKeyId) -> (r: Result<Address, Error>)
        ensures
            match self.spec_address(server_key_id@) {
                Ok(address) => r is Ok && r->Ok_0@ == address,
                Err(_) => r == Err::<Address, Error>(Error::InvalidSignature),
            },
    {
        match self.address(server_key_id) {
            Ok(address) => Ok(address),
            Err(_) => Err(Error::InvalidSignature),
        }
    }
}

impl From<RequestSignature> for Requester {
    fn from(signature: RequestSignature) -> (r: Requester) {
        Requester::Signature(signature)
    }
}

impl FromSpecImpl<RequestSignature> for Requester {
    open spec fn obeys_from_spec() -> bool {
        true
    }

    open spec fn from_spec(signature: RequestSignature) -> Requester {
        Requester::Signature(signature)
    }
}

impl From<Public> for Requester {
    fn from(public: Public) -> (r: Requester) {
        Requester::Public(public)
    }
}

impl FromSpecImpl<Public> for Requester {
    open spec fn obeys_from_spec() -> bool {
        true
    }

    open spec fn from_spec(public: Public) -> Requester {
        Requester::Public(public)
    }
}

impl From<Address> for Requester {
    fn from(address: Address) -> (r: Requester) {
        Requester::Address(address)
    }
}

impl FromSpecImpl<Address> for Requester {
    open spec fn obeys_from_spec() -> bool {
        true
    }

    open spec fn from_spec(address: Address) -> Requester {
        Requester::Address(address)
    }
}

/// A signature of the server key id resolves to the same address as the
/// public key of the one who signed.
pub proof fn lemma_signature_resolves_as_public(
    signature: RequestSignature,
    public: Public,
    server_key_id: ServerKeyId,
)
    requires
        recovered_public(signature@, server_key_id@) == Ok::<Seq<u8>, Seq<char>>(public@),
    ensures
        Requester::Signature(signature).spec_public(server_key_id@) == Requester::Public(
            public,
        ).spec_public(server_key_id@),
        Requester::Signature(signature).spec_address(server_key_id@) == Requester::Public(
            public,
        ).spec_address(server_key_id@),
        Requester::Signature(signature).spec_address(server_key_id@) is Ok,
{
}

} // verus!

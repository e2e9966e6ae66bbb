//! The curve operations that the library takes from `parity-crypto`.

use crate::hash::{Address, FixedBytes, Public, Signature, H256};
use vstd::prelude::*;

verus! {

/// What signature recovery yields for the 65 bytes of a signature and the 32
/// bytes of a message: the 64 bytes of the signer's public key, or the text of
/// the error that the recovery reports.
pub uninterp spec fn recovered_public(signature: Seq<u8>, message: Seq<u8>) -> Result<
    Seq<u8>,
    Seq<char>,
>;

/// The 20 bytes of the address that belongs to the 64 bytes of a public key.
pub uninterp spec fn address_of_public(public: Seq<u8>) -> Seq<u8>;

/// Calls `parity_crypto::publickey::recover`, which recovers the public key of
/// the signer from a signature and the message that was signed. The result
/// depends on the bytes of the two arguments alone: it is either the key or
/// the error, which is handed on as the text that its `Display` gives.
#[verifier::external_body]
pub(crate) fn recover(signature: &Signature, message: &H256) -> (r: Result<Public, String>)
    ensures
        recovered_public(signature@, message@) == (match r {
            Ok(public) => Ok::<Seq<u8>, Seq<char>>(public@),
            Err(text) => Err::<Seq<u8>, Seq<char>>(text@),
        }),
{
    let signature = parity_crypto::publickey::Signature::from(signature.0);
    let message = parity_crypto::publickey::Message::from(message.0);
    match parity_crypto::publickey::recover(&signature, &message) {
        Ok(public) => Ok(FixedBytes(public.0)),
        Err(error) => Err(format!("{}", error)),
    }
}

/// Calls `parity_crypto::publickey::public_to_address`, which hashes the
/// public key and keeps the last 20 bytes of the hash.
#[verifier::external_body]
pub(crate) fn public_to_address(public: &Public) -> (r: Address)
    ensures
        r@ == address_of_public(public@),
{
    let public = parity_crypto::publickey::Public::from(public.0);
    FixedBytes(parity_crypto::publickey::public_to_address(&public).0)
}

} // verus!

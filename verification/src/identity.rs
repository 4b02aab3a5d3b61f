use vstd::prelude::*;

verus! {

/// libp2p_identity::Keypair, held opaquely: an asymmetric keypair.
#[verifier::external_type_specification]
#[verifier::external_body]
pub struct ExKeypair(libp2p_identity::Keypair);

/// libp2p_identity::PublicKey, held opaquely: a keypair's public half.
#[verifier::external_type_specification]
#[verifier::external_body]
pub struct ExPublicKey(libp2p_identity::PublicKey);

/// libp2p_identity::PeerId, held opaquely: the multihash of a public key.
#[verifier::external_type_specification]
#[verifier::external_body]
pub struct ExPeerId(libp2p_identity::PeerId);

/// Relies on libp2p_identity::Keypair::generate_ed25519: a fresh keypair
/// from a cryptographically secure source; nothing is promised of its
/// value.
#[verifier::external_body]
fn generate_keypair() -> libp2p_identity::Keypair {
    libp2p_identity::Keypair::generate_ed25519()
}

/// Relies on libp2p_identity::Keypair::public, for the keypair's public
/// half.
#[verifier::external_body]
fn public_key_of(keys: &libp2p_identity::Keypair) -> libp2p_identity::PublicKey {
    keys.public()
}

/// Relies on libp2p_identity::PublicKey::to_peer_id, for the content
/// identifier derived from the public key.
#[verifier::external_body]
fn peer_id_of(public: &libp2p_identity::PublicKey) -> libp2p_identity::PeerId {
    public.to_peer_id()
}

/// Relies on libp2p_identity::PeerId::to_base58: the base-58 rendering of
/// the peer id's multihash bytes, which are never empty, so neither is the
/// string.
#[verifier::external_body]
fn peer_id_base58(peer: &libp2p_identity::PeerId) -> (r: String)
    ensures
        r@.len() > 0,
{
    (*peer).to_base58()
}

/// The identity provider: generate a fresh process-lifetime keypair and
/// derive the node's stable identifier string from its public key.
/// Called once at startup; never fails.
pub fn fresh_identity() -> (r: String)
    ensures
        r@.len() > 0,
{
    let keys = generate_keypair();
    let public = public_key_of(&keys);
    let peer = peer_id_of(&public);
    peer_id_base58(&peer)
}

} // verus!

//! The key agreement of the handshake: what each side derives from its own
//! secrets and its peer's public keys, and the proof that the two sides
//! derive the same.
//!
//! Three Diffie-Hellman results go into the master secret: ephemeral with
//! ephemeral, which gives forward secrecy; the initiator's static key with
//! the responder's ephemeral, which authenticates the initiator; and the
//! initiator's ephemeral with the responder's static key, which
//! authenticates the responder. The transcript of the messages exchanged
//! is mixed in last, so that both sides agree on what was said as well.

use vstd::prelude::*;

use crate::error::Error;
use crate::keys::bytes_result;
use crate::keys::derive_master;
use crate::keys::spec_cipher_key;
use crate::keys::spec_master;
use crate::keys::KeyState;
use crate::keys::Role;
use crate::keys::LABEL_CONFIRM_TAG;
use crate::keys::LABEL_FINGERPRINT;
use crate::keys::LABEL_RATCHET;
use crate::keys::LABEL_RESPONSE_TAG;
use crate::primitives::spec_agree;
use crate::primitives::spec_expand;
use crate::primitives::KeyPair;
use crate::primitives::HASH_SIZE;
use crate::wire::spec_encode_response_body;

verus! {

/// What both sides have seen when the response has been sent: the
/// initiation as it went over the wire, and the response without its tag.
pub open spec fn spec_transcript(
    init_bytes: Seq<u8>,
    initiator_id: u64,
    responder_id: u64,
    responder_ephemeral: Seq<u8>,
) -> Seq<u8> {
    init_bytes + spec_encode_response_body(initiator_id, responder_id, responder_ephemeral)
}

/// The master secret as the initiator derives it, or `InvalidKeyEncoding`
/// where one of the responder's keys is no point of the curve.
pub open spec fn spec_initiator_master(
    static_secret: Seq<u8>,
    ephemeral_secret: Seq<u8>,
    responder_static: Seq<u8>,
    responder_ephemeral: Seq<u8>,
    psk: Seq<u8>,
    transcript: Seq<u8>,
) -> Result<Seq<u8>, Error> {
    match (
        spec_agree(ephemeral_secret, responder_ephemeral),
        spec_agree(static_secret, responder_ephemeral),
        spec_agree(ephemeral_secret, responder_static),
    ) {
        (Ok(ee), Ok(se), Ok(es)) => Ok(spec_master(psk, ee, se, es, transcript)),
        _ => Err(Error::InvalidKeyEncoding),
    }
}

/// The master secret as the responder derives it, or `InvalidKeyEncoding`
/// where one of the initiator's keys is no point of the curve.
pub open spec fn spec_responder_master(
    static_secret: Seq<u8>,
    ephemeral_secret: Seq<u8>,
    initiator_static: Seq<u8>,
    initiator_ephemeral: Seq<u8>,
    psk: Seq<u8>,
    transcript: Seq<u8>,
) -> Result<Seq<u8>, Error> {
    match (
        spec_agree(ephemeral_secret, initiator_ephemeral),
        spec_agree(ephemeral_secret, initiator_static),
        spec_agree(static_secret, initiator_ephemeral),
    ) {
        (Ok(ee), Ok(se), Ok(es)) => Ok(spec_master(psk, ee, se, es, transcript)),
        _ => Err(Error::InvalidKeyEncoding),
    }
}

/// Derives the master secret on the initiator's side.
pub fn initiator_master(
    local: &KeyPair,
    ephemeral: &KeyPair,
    responder_static: &[u8],
    responder_ephemeral: &[u8],
    psk: &[u8],
    transcript: &[u8],
) -> (master: Result<Vec<u8>, Error>)
    ensures
        bytes_result(master) == spec_initiator_master(
            local.secret@,
            ephemeral.secret@,
            responder_static@,
            responder_ephemeral@,
            psk@,
            transcript@,
        ),
        master matches Ok(m) ==> m@.len() == HASH_SIZE,
{
    let ee = ephemeral.agree(responder_ephemeral);
    let se = local.agree(responder_ephemeral);
    let es = ephemeral.agree(responder_static);
    match (ee, se, es) {
        (Ok(ee), Ok(se), Ok(es)) => Ok(
            derive_master(psk, ee.as_slice(), se.as_slice(), es.as_slice(), transcript),
        ),
        _ => Err(Error::InvalidKeyEncoding),
    }
}

/// Derives the master secret on the responder's side.
pub fn responder_master(
    local: &KeyPair,
    ephemeral: &KeyPair,
    initiator_static: &[u8],
    initiator_ephemeral: &[u8],
    psk: &[u8],
    transcript: &[u8],
) -> (master: Result<Vec<u8>, Error>)
    ensures
        bytes_result(master) == spec_responder_master(
            local.secret@,
            ephemeral.secret@,
            initiator_static@,
            initiator_ephemeral@,
            psk@,
            transcript@,
        ),
        master matches Ok(m) ==> m@.len() == HASH_SIZE,
{
    let ee = ephemeral.agree(initiator_ephemeral);
    let se = ephemeral.agree(initiator_static);
    let es = local.agree(initiator_ephemeral);
    match (ee, se, es) {
        (Ok(ee), Ok(se), Ok(es)) => Ok(
            derive_master(psk, ee.as_slice(), se.as_slice(), es.as_slice(), transcript),
        ),
        _ => Err(Error::InvalidKeyEncoding),
    }
}

/// The tag by which the responder proves that it derived the master secret.
pub open spec fn spec_response_tag(master: Seq<u8>) -> Seq<u8> {
    spec_expand(master, LABEL_RESPONSE_TAG)
}

/// The tag by which the initiator proves that it derived the master secret.
pub open spec fn spec_confirm_tag(master: Seq<u8>) -> Seq<u8> {
    spec_expand(master, LABEL_CONFIRM_TAG)
}

/// The secret of the first key generation.
pub open spec fn spec_first_ratchet_key(master: Seq<u8>) -> Seq<u8> {
    spec_expand(master, LABEL_RATCHET)
}

/// Whether the Diffie-Hellman results of two key pairs agree: each secret
/// with the other's public key gives the same shared secret.
pub open spec fn spec_agreement(
    a_secret: Seq<u8>,
    a_public: Seq<u8>,
    b_secret: Seq<u8>,
    b_public: Seq<u8>,
) -> bool {
    spec_agree(a_secret, b_public) == spec_agree(b_secret, a_public)
}

/// Both parties converge on the same key material. Where each of the three
/// Diffie-Hellman exchanges of a handshake agrees, and both sides hold the
/// same pre-shared secret and saw the same transcript, the initiator and
/// the responder derive the same master secret, and so the same tags and
/// the same first generation secret.
pub proof fn lemma_handshake_converges(
    initiator_static: (Seq<u8>, Seq<u8>),
    initiator_ephemeral: (Seq<u8>, Seq<u8>),
    responder_static: (Seq<u8>, Seq<u8>),
    responder_ephemeral: (Seq<u8>, Seq<u8>),
    psk: Seq<u8>,
    transcript: Seq<u8>,
)
    ensures
        spec_agreement(
            initiator_ephemeral.0,
            initiator_ephemeral.1,
            responder_ephemeral.0,
            responder_ephemeral.1,
        ) && spec_agreement(
            initiator_static.0,
            initiator_static.1,
            responder_ephemeral.0,
            responder_ephemeral.1,
        ) && spec_agreement(
            initiator_ephemeral.0,
            initiator_ephemeral.1,
            responder_static.0,
            responder_static.1,
        ) ==> spec_initiator_master(
            initiator_static.0,
            initiator_ephemeral.0,
            responder_static.1,
            responder_ephemeral.1,
            psk,
            transcript,
        ) == spec_responder_master(
            responder_static.0,
            responder_ephemeral.0,
            initiator_static.1,
            initiator_ephemeral.1,
            psk,
            transcript,
        ),
{
}

/// The two ends of a key generation fit together: where both sides derived
/// their keys from the same secret, each sends with the key the other
/// receives with, and both show the same generation and fingerprint.
pub proof fn lemma_generation_matches(
    initiator: KeyState,
    responder: KeyState,
    ratchet_key: Seq<u8>,
    generation: u64,
)
    requires
        initiator.spec_derived(
            ratchet_key,
            generation,
            Role::Initiator,
            initiator.initiated_locally,
            initiator.created_at,
            initiator.rekey_age,
        ),
        responder.spec_derived(
            ratchet_key,
            generation,
            Role::Responder,
            responder.initiated_locally,
            responder.created_at,
            responder.rekey_age,
        ),
    ensures
        initiator.send_key@ == responder.receive_key@,
        initiator.receive_key@ == responder.send_key@,
        initiator.fingerprint@ == responder.fingerprint@,
        initiator.generation == responder.generation,
        initiator.fingerprint@ == spec_expand(ratchet_key, LABEL_FINGERPRINT),
        initiator.send_key@ == spec_cipher_key(ratchet_key, Role::Initiator.spec_send_label()),
{
}

} // verus!

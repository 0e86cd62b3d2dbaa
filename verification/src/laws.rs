//! What the protocol guarantees, stated over the relations that the
//! session operations are specified by, and proved from them.

use vstd::prelude::*;

use crate::error::Error;
use crate::handshake::spec_agreement;
use crate::handshake::spec_responder_master;
use crate::handshake::spec_response_tag;
use crate::handshake::spec_transcript;
use crate::keys::KeyState;
use crate::primitives::KeyPair;
use crate::replay::lemma_no_counter_accepted_twice;
use crate::replay::ReplayWindow;
use crate::session::Duty;
use crate::session::KeySlot;
use crate::session::RemoteIdentity;
use crate::session::Session;
use crate::session::SessionState;
use crate::settings::Settings;
use crate::wire::ProtectedHeader;

verus! {

/// A handshake leaves both parties with matching sessions.
///
/// Take an initiator that awaits a response, and a responder that answered
/// its initiation for an identity with the same pre-shared secret. Where
/// the initiator completes the handshake on that response, and each of the
/// three Diffie-Hellman exchanges agrees, the two sessions know each other
/// by the right identifiers, hold the same first key generation with the
/// same fingerprint, and each sends with the key the other receives with.
pub proof fn lemma_sessions_converge(
    awaiting: Session,
    initiator: Session,
    responder: Session,
    initiator_static: KeyPair,
    responder_static: KeyPair,
    responder_ephemeral: KeyPair,
    identity: RemoteIdentity,
    response: Seq<u8>,
    confirmation: Result<Vec<u8>, Error>,
    initiator_age: i64,
    responder_age: i64,
    initiator_now: i64,
    responder_now: i64,
)
    requires
        awaiting.wf(),
        awaiting.state == SessionState::SentInit,
        awaiting.remote_static@ == responder_static.public@,
        identity.public_key@ == initiator_static.public@,
        identity.psk@ == awaiting.psk@,
        spec_responder_master(
            responder_static.secret@,
            responder_ephemeral.secret@,
            identity.public_key@,
            awaiting.ephemeral.unwrap().public@,
            identity.psk@,
            spec_transcript(awaiting.init_bytes@, awaiting.id, responder.id, responder_ephemeral.public@),
        ) matches Ok(master) && responder.spec_responded(
            responder.id,
            awaiting.id,
            awaiting.init_bytes@,
            identity,
            master,
            response,
            responder_age,
            responder_now,
        ) && Session::spec_completed(
            awaiting,
            initiator_static,
            responder.id,
            responder_ephemeral.public@,
            spec_response_tag(master),
            response,
            initiator_age,
            initiator_now,
            initiator,
            confirmation,
        ),
    ensures
        spec_agreement(
            awaiting.ephemeral.unwrap().secret@,
            awaiting.ephemeral.unwrap().public@,
            responder_ephemeral.secret@,
            responder_ephemeral.public@,
        ) && spec_agreement(
            initiator_static.secret@,
            initiator_static.public@,
            responder_ephemeral.secret@,
            responder_ephemeral.public@,
        ) && spec_agreement(
            awaiting.ephemeral.unwrap().secret@,
            awaiting.ephemeral.unwrap().public@,
            responder_static.secret@,
            responder_static.public@,
        ) ==> {
            &&& confirmation is Ok
            &&& initiator.state == SessionState::Established
            &&& initiator.remote_id == responder.id
            &&& responder.remote_id == initiator.id
            &&& initiator.current.unwrap().generation == 1
            &&& responder.current.unwrap().generation == 1
            &&& initiator.current.unwrap().ratchet_key@ == responder.current.unwrap().ratchet_key@
            &&& initiator.current.unwrap().fingerprint@ == responder.current.unwrap().fingerprint@
            &&& initiator.current.unwrap().send_key@ == responder.current.unwrap().receive_key@
            &&& initiator.current.unwrap().receive_key@ == responder.current.unwrap().send_key@
        },
{
}

/// A ratchet that is due is asked for. For an established session whose
/// key has reached the configured number of uses, or the age it was given,
/// without having reached the usage ceiling, the duty of the side whose
/// turn it is is to ask for a ratchet, or, where it has asked already, to
/// ask again once the retry interval has passed.
pub proof fn lemma_due_ratchet_is_asked_for(session: Session, now: i64, settings: Settings)
    requires
        session.wf(),
        settings.wf(),
        session.spec_rekey_turn(),
        !session.current.unwrap().spec_expired(settings.expire_after_uses),
        session.current.unwrap().spec_uses() >= settings.rekey_after_uses
            || crate::clock::spec_elapsed(now, session.current.unwrap().created_at)
            >= session.current.unwrap().rekey_age,
    ensures
        session.ephemeral is None ==> session.spec_duty(now, settings) == Duty::Rekey,
        session.ephemeral is Some && crate::clock::spec_due(
            now,
            session.last_sent_at,
            settings.retry_interval_ms,
        ) ==> session.spec_duty(now, settings) == Duty::RetryRekey,
        session.ephemeral is Some ==> session.spec_duty(now, settings) == Duty::RetryRekey
            || session.spec_duty(now, settings) is Wait,
{
}

/// A ratchet steps the generation by exactly one, on the side that asked
/// for it. The key that was in use becomes the previous one, the new key
/// starts unused, and it is the peer's turn to ask next.
pub proof fn lemma_finished_ratchet_steps_generation(
    pre: Session,
    header: ProtectedHeader,
    sealed: Seq<u8>,
    rekey_age: i64,
    now: i64,
    limit: u64,
    post: Session,
    finished: Result<(), Error>,
)
    requires
        pre.wf(),
        Session::spec_rekey_finished(pre, header, sealed, rekey_age, now, limit, post, finished),
        finished is Ok,
    ensures
        pre.state == SessionState::Established,
        post.state == SessionState::Established,
        post.current.unwrap().generation == pre.current.unwrap().generation + 1,
        post.current.unwrap().generation > pre.current.unwrap().generation,
        post.previous.unwrap().generation == pre.current.unwrap().generation,
        post.current.unwrap().send_counter == 0,
        post.current.unwrap().received == 0,
        post.current.unwrap().initiated_locally,
        post.ephemeral is None,
{
}

/// A ratchet steps the generation by exactly one, on the side that
/// answered. Both sides derive the new key from the secret of the old one
/// and the shared secret of the exchange: where the exchange agrees, they
/// derive the same.
pub proof fn lemma_answered_ratchet_steps_generation(
    pre: Session,
    header: ProtectedHeader,
    sealed: Seq<u8>,
    fresh: KeyPair,
    rekey_age: i64,
    now: i64,
    limit: u64,
    post: Session,
    answer: Result<Vec<u8>, Error>,
)
    requires
        pre.wf(),
        Session::spec_rekey_answered(pre, header, sealed, fresh, rekey_age, now, limit, post, answer),
        answer is Ok,
        pre.spec_slot(header.generation) == Some(KeySlot::Current),
    ensures
        post.state == SessionState::Established,
        post.current.unwrap().generation == pre.current.unwrap().generation + 1,
        post.current.unwrap().generation > pre.current.unwrap().generation,
        post.previous.unwrap().generation == pre.current.unwrap().generation,
        post.current.unwrap().send_counter == 0,
        post.current.unwrap().received == 0,
        !post.current.unwrap().initiated_locally,
{
}

/// A session at its usage ceiling is unusable. Sending on an established
/// session whose key has reached the ceiling fails with `SessionExpired`
/// and expires the session.
pub proof fn lemma_ceiling_stops_sending(
    pre: Session,
    message: Seq<u8>,
    settings: Settings,
    post: Session,
    sent: Result<Vec<Vec<u8>>, Error>,
)
    requires
        pre.wf(),
        settings.wf(),
        pre.state == SessionState::Established,
        pre.current.unwrap().spec_expired(settings.expire_after_uses),
        Session::spec_sent(pre, message, settings, post, sent),
    ensures
        sent matches Err(e) && e == Error::SessionExpired,
        post.state == SessionState::Expired,
{
}

/// A session at its usage ceiling is unusable. Whatever arrives for an
/// established session whose current key has reached the ceiling, be it a
/// fragment, a request for a ratchet or its acknowledgement, of whatever
/// generation, authentic or not, fails with `SessionExpired` and expires
/// the session.
pub proof fn lemma_ceiling_stops_receiving(
    pre: Session,
    header: ProtectedHeader,
    sealed: Seq<u8>,
    fresh: KeyPair,
    rekey_age: i64,
    now: i64,
    limit: u64,
    after_data: Session,
    delivered: Result<Option<Vec<u8>>, Error>,
    after_request: Session,
    answer: Result<Vec<u8>, Error>,
    after_acknowledgement: Session,
    finished: Result<(), Error>,
)
    requires
        pre.wf(),
        pre.state == SessionState::Established,
        pre.current.unwrap().spec_expired(limit),
        Session::spec_received_data(pre, header, sealed, now, limit, after_data, delivered),
        Session::spec_rekey_answered(
            pre,
            header,
            sealed,
            fresh,
            rekey_age,
            now,
            limit,
            after_request,
            answer,
        ),
        Session::spec_rekey_finished(
            pre,
            header,
            sealed,
            rekey_age,
            now,
            limit,
            after_acknowledgement,
            finished,
        ),
    ensures
        delivered matches Err(e) && e == Error::SessionExpired,
        answer matches Err(e) && e == Error::SessionExpired,
        finished matches Err(e) && e == Error::SessionExpired,
        after_data.state == SessionState::Expired,
        after_request.state == SessionState::Expired,
        after_acknowledgement.state == SessionState::Expired,
{
}

/// Expiry is final. Whatever is sent on an expired session, and whatever
/// arrives for it, fails with `SessionExpired` and leaves it expired.
pub proof fn lemma_expired_stays_expired(
    pre: Session,
    message: Seq<u8>,
    settings: Settings,
    after_send: Session,
    sent: Result<Vec<Vec<u8>>, Error>,
    header: ProtectedHeader,
    sealed: Seq<u8>,
    now: i64,
    after_receive: Session,
    delivered: Result<Option<Vec<u8>>, Error>,
)
    requires
        pre.state == SessionState::Expired,
        Session::spec_sent(pre, message, settings, after_send, sent),
        Session::spec_received_data(
            pre,
            header,
            sealed,
            now,
            settings.expire_after_uses,
            after_receive,
            delivered,
        ),
    ensures
        sent matches Err(e) && e == Error::SessionExpired,
        delivered matches Err(e) && e == Error::SessionExpired,
        after_send == pre,
        after_receive == pre,
{
}

/// A key never opens the same counter twice. Along any run of a key
/// generation in which datagrams were opened, whatever the order in which
/// they arrived, the counters of the datagrams opened are all different.
pub proof fn lemma_key_opens_each_counter_once(
    keys: Seq<KeyState>,
    counters: Seq<u64>,
    i: int,
    j: int,
)
    requires
        keys.len() == counters.len() + 1,
        forall|k: int|
            0 <= k < counters.len() ==> KeyState::spec_counted(
                #[trigger] keys[k],
                counters[k],
                keys[k + 1],
            ),
        0 <= i < j < counters.len(),
    ensures
        counters[i] != counters[j],
{
    let windows = keys.map_values(|key: KeyState| key.window);
    assert forall|k: int| 0 <= k < counters.len() implies ReplayWindow::accepted_step(
        #[trigger] windows[k],
        counters[k],
        windows[k + 1],
    ) by {
        assert(KeyState::spec_counted(keys[k], counters[k], keys[k + 1]));
    }
    lemma_no_counter_accepted_twice(windows, counters, i, j);
}

/// No nonce is used twice under one key. Two datagrams that the same key
/// sealed, one after the other, carry different counters, the later one
/// the higher.
pub proof fn lemma_counters_strictly_increase(
    key: KeyState,
    first: ProtectedHeader,
    second: ProtectedHeader,
    limit: u64,
    plaintexts: (Seq<u8>, Seq<u8>),
)
    requires
        key.wf(),
        first == key.spec_next_header(
            first.recipient_id,
            first.kind,
            first.message_id,
            first.index,
            first.count,
        ),
        key.spec_seal(
            first.recipient_id,
            first.kind,
            first.message_id,
            first.index,
            first.count,
            plaintexts.0,
            limit,
        ).1 is Ok,
        second == key.spec_seal(
            first.recipient_id,
            first.kind,
            first.message_id,
            first.index,
            first.count,
            plaintexts.0,
            limit,
        ).0.spec_next_header(
            second.recipient_id,
            second.kind,
            second.message_id,
            second.index,
            second.count,
        ),
    ensures
        second.counter == first.counter + 1,
        second.generation == first.generation,
{
}

} // verus!

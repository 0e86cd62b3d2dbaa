//! A session: the state that one party keeps for one peer, from the first
//! handshake message to expiry, and the transitions that the handshake,
//! the transport and the ratchet make on it.
//!
//! A session is created by an initiation, either sent or answered. It rests
//! in `SentInit` while the initiator waits for a response, in `SentResponse`
//! while the responder waits for the confirmation, and in `Established`
//! from then on. `Idle` is the state of a peer for which there is no
//! session yet; `ReceivedInit` and `ReceivedResponse` are passed through
//! within the call that handles the message. `Expired` is terminal.

use vstd::prelude::*;

use crate::clock::due;
use crate::clock::remaining;
use crate::clock::sooner;
use crate::clock::spec_due;
use crate::clock::spec_remaining;
use crate::error::Error;
use crate::fragment::byte_strings;
use crate::fragment::fragment_count;
use crate::fragment::lemma_fragments_reassemble;
use crate::fragment::released_view;
use crate::fragment::spec_accept;
use crate::fragment::spec_evict;
use crate::fragment::spec_fragment_count;
use crate::fragment::spec_fragments;
use crate::fragment::split;
use crate::fragment::Reassembler;
use crate::fragment::ReassemblyView;
use crate::fragment::MAX_FRAGMENTS;
use crate::handshake::initiator_master;
use crate::handshake::responder_master;
use crate::handshake::spec_confirm_tag;
use crate::handshake::spec_first_ratchet_key;
use crate::handshake::spec_initiator_master;
use crate::handshake::spec_responder_master;
use crate::handshake::spec_response_tag;
use crate::handshake::spec_transcript;
use crate::keys::bytes_result;
use crate::keys::spec_ratchet_key;
use crate::keys::KeyState;
use crate::keys::Role;
use crate::keys::LABEL_CONFIRM_TAG;
use crate::keys::LABEL_RATCHET;
use crate::keys::LABEL_RESPONSE_TAG;
use crate::primitives::bytes_equal;
use crate::primitives::bytes_view;
use crate::primitives::copy_bytes;
use crate::primitives::expand;
use crate::primitives::spec_agree;
use crate::primitives::spec_wiped;
use crate::primitives::wipe;
use crate::primitives::KeyPair;
use crate::primitives::CIPHER_MAX_INPUT;
use crate::primitives::HASH_SIZE;
use crate::primitives::PUBLIC_KEY_SIZE;
use crate::settings::Settings;
use crate::settings::MAX_USES;
use crate::settings::REASSEMBLY_TIMEOUT_MS;
use crate::wire::put_bytes;
use crate::wire::put_header;
use crate::wire::put_u64;
use crate::wire::spec_encode_confirm;
use crate::wire::spec_encode_init;
use crate::wire::spec_encode_response;
use crate::wire::ProtectedHeader;
use crate::wire::ProtectedKind;
use crate::wire::PROTECTED_OVERHEAD;
use crate::wire::HANDSHAKE_MARKER;
use crate::wire::TYPE_CONFIRM;
use crate::wire::TYPE_INIT;
use crate::wire::TYPE_RESPONSE;

verus! {

/// Where a party stands in the life of a session.
#[derive(Clone, Copy, Debug, PartialEq, Eq, Structural)]
pub enum SessionState {
    /// No message was sent or received yet.
    Idle,
    /// The initiation was sent; the response is awaited.
    SentInit,
    /// An initiation was received and admitted; the response is being made.
    ReceivedInit,
    /// The response was sent; the confirmation is awaited.
    SentResponse,
    /// The response was received; its tag is being verified.
    ReceivedResponse,
    /// Both sides hold the session keys.
    Established,
    /// The handshake timed out, or the keys ran into the usage ceiling.
    Expired,
}

/// What the resolver knows of a peer that it admits.
pub struct RemoteIdentity {
    /// The peer's long-term public key.
    pub public_key: Vec<u8>,
    /// The secret shared with the peer beforehand; empty where there is none.
    pub psk: Vec<u8>,
    /// Whatever the application wants to find attached to the session.
    pub application_data: Vec<u8>,
}

/// The state that one party keeps for one peer.
pub struct Session {
    /// The identifier by which this party knows the session.
    pub id: u64,
    /// The identifier by which the peer knows it; zero until the peer said.
    pub remote_id: u64,
    /// The side of the handshake that this party is on.
    pub role: Role,
    /// Where the session stands.
    pub state: SessionState,
    /// The peer's long-term public key.
    pub remote_static: Vec<u8>,
    /// The secret shared with the peer beforehand.
    pub psk: Vec<u8>,
    /// What the application attached to the peer.
    pub application_data: Vec<u8>,
    /// When the session was created.
    pub created_at: i64,
    /// When a handshake or re-key message was last sent.
    pub last_sent_at: i64,
    /// The ephemeral key of an exchange that this party started and that
    /// the peer has not answered yet: the handshake, or a re-key.
    pub ephemeral: Option<KeyPair>,
    /// The initiation of the handshake as it went over the wire.
    pub init_bytes: Vec<u8>,
    /// The handshake message that is sent again when the peer stays
    /// silent: the initiation or the response; after that, the initiator
    /// keeps its confirmation.
    pub last_message: Vec<u8>,
    /// On the responder, the confirmation tag that is awaited; on the
    /// initiator, the response that was accepted.
    pub expected: Vec<u8>,
    /// The key generation in use.
    pub current: Option<KeyState>,
    /// The generation before it, kept to receive what was sent under it.
    pub previous: Option<KeyState>,
    /// The peer's ephemeral key of the last re-key request that was answered.
    pub rekey_peer: Vec<u8>,
    /// The acknowledgement that was sent for it.
    pub rekey_ack: Vec<u8>,
    /// The identifier of the next message to send.
    pub next_message_id: u64,
    /// The number of datagrams in a row whose tag did not verify.
    pub failures: u32,
    /// The messages of the peer that are being put together.
    pub reassembler: Reassembler,
}

impl Session {
    /// A session is well formed when it rests in one of the four states a
    /// session can rest in, and holds what that state calls for.
    pub open spec fn wf(&self) -> bool {
        &&& self.id != HANDSHAKE_MARKER
        &&& self.remote_static@.len() == PUBLIC_KEY_SIZE
        &&& self.reassembler.wf()
        &&& self.failures <= FAILURE_LIMIT
        &&& (self.state != SessionState::Expired ==> self.failures < FAILURE_LIMIT)
        &&& (self.ephemeral matches Some(e) ==> e.wf())
        &&& (self.current matches Some(k) ==> k.wf())
        &&& (self.previous matches Some(k) ==> k.wf())
        &&& match self.state {
            SessionState::SentInit => {
                &&& self.role == Role::Initiator
                &&& self.ephemeral is Some
                &&& self.current is None
            },
            SessionState::SentResponse => {
                &&& self.role == Role::Responder
                &&& self.current is Some
                &&& self.remote_id != HANDSHAKE_MARKER
                &&& self.expected@.len() == HASH_SIZE
            },
            SessionState::Established => {
                &&& self.current is Some
                &&& self.remote_id != HANDSHAKE_MARKER
            },
            SessionState::Expired => true,
            _ => false,
        }
    }

    /// Whether this is the session that [`Session::initiate`] creates.
    pub open spec fn spec_initiated(
        &self,
        id: u64,
        remote_static: Seq<u8>,
        psk: Seq<u8>,
        application_data: Seq<u8>,
        ephemeral: KeyPair,
        datagram: Seq<u8>,
        now: i64,
    ) -> bool {
        &&& self.id == id
        &&& self.remote_id == HANDSHAKE_MARKER
        &&& self.role == Role::Initiator
        &&& self.state == SessionState::SentInit
        &&& self.remote_static@ == remote_static
        &&& self.psk@ == psk
        &&& self.application_data@ == application_data
        &&& self.created_at == now
        &&& self.last_sent_at == now
        &&& self.ephemeral == Some(ephemeral)
        &&& self.init_bytes@ == datagram
        &&& self.last_message@ == datagram
        &&& self.current is None
        &&& self.previous is None
        &&& self.next_message_id == 0
        &&& self.failures == 0
        &&& self.reassembler@ == Seq::<ReassemblyView>::empty()
    }

    /// Opens a handshake towards the peer with the long-term key
    /// `remote_static`: creates the session and the initiation to send.
    /// The initiation carries this party's session identifier, the fresh
    /// ephemeral key and this party's long-term public key. Fails with
    /// `InvalidKeyEncoding` where the peer's key is no point of the curve.
    pub fn initiate(
        id: u64,
        local_public: &[u8],
        remote_static: &[u8],
        psk: &[u8],
        application_data: &[u8],
        ephemeral: KeyPair,
        now: i64,
    ) -> (opened: Result<(Session, Vec<u8>), Error>)
        requires
            id != HANDSHAKE_MARKER,
            ephemeral.wf(),
        ensures
            match spec_agree(ephemeral.secret@, remote_static@) {
                Ok(_) => {
                    &&& opened matches Ok((session, datagram))
                    &&& session.wf()
                    &&& datagram@ == spec_encode_init(id, ephemeral.public@, local_public@)
                    &&& session.spec_initiated(
                        id,
                        remote_static@,
                        psk@,
                        application_data@,
                        ephemeral,
                        datagram@,
                        now,
                    )
                },
                Err(e) => opened matches Err(f) && f == e,
            },
    {
        match ephemeral.agree(remote_static) {
            Ok(_) => {},
            Err(e) => {
                return Err(e);
            },
        }
        let mut datagram: Vec<u8> = Vec::new();
        put_header(&mut datagram, HANDSHAKE_MARKER, TYPE_INIT);
        put_u64(&mut datagram, id);
        put_bytes(&mut datagram, ephemeral.public.as_slice());
        put_bytes(&mut datagram, local_public);
        let session = Session {
            id,
            remote_id: HANDSHAKE_MARKER,
            role: Role::Initiator,
            state: SessionState::SentInit,
            remote_static: copy_bytes(remote_static),
            psk: copy_bytes(psk),
            application_data: copy_bytes(application_data),
            created_at: now,
            last_sent_at: now,
            ephemeral: Some(ephemeral),
            init_bytes: copy_bytes(datagram.as_slice()),
            last_message: copy_bytes(datagram.as_slice()),
            expected: Vec::new(),
            current: None,
            previous: None,
            rekey_peer: Vec::new(),
            rekey_ack: Vec::new(),
            next_message_id: 0,
            failures: 0,
            reassembler: Reassembler::new(),
        };
        Ok((session, datagram))
    }

    /// Whether this is the session that [`Session::respond`] creates from a
    /// handshake with the master secret `master`.
    pub open spec fn spec_responded(
        &self,
        id: u64,
        initiator_id: u64,
        init_bytes: Seq<u8>,
        identity: RemoteIdentity,
        master: Seq<u8>,
        datagram: Seq<u8>,
        rekey_age: i64,
        now: i64,
    ) -> bool {
        &&& self.id == id
        &&& self.remote_id == initiator_id
        &&& self.role == Role::Responder
        &&& self.state == SessionState::SentResponse
        &&& self.remote_static == identity.public_key
        &&& self.psk == identity.psk
        &&& self.application_data == identity.application_data
        &&& self.created_at == now
        &&& self.last_sent_at == now
        &&& self.ephemeral is None
        &&& self.init_bytes@ == init_bytes
        &&& self.last_message@ == datagram
        &&& self.expected@ == spec_confirm_tag(master)
        &&& self.current matches Some(key) && key.spec_derived(
            spec_first_ratchet_key(master),
            1,
            Role::Responder,
            false,
            now,
            rekey_age,
        )
        &&& self.previous is None
        &&& self.next_message_id == 0
        &&& self.failures == 0
        &&& self.reassembler@ == Seq::<ReassemblyView>::empty()
    }

    /// Answers an initiation from a peer that the resolver admitted: derives
    /// the session keys and creates the session and the response to send.
    /// The response carries this party's session identifier, its fresh
    /// ephemeral key, and a tag that proves it derived the master secret.
    /// Fails with `InvalidKeyEncoding` where one of the initiator's keys is
    /// no point of the curve.
    pub fn respond(
        id: u64,
        local: &KeyPair,
        initiator_id: u64,
        initiator_ephemeral: &[u8],
        init_bytes: &[u8],
        identity: RemoteIdentity,
        ephemeral: KeyPair,
        rekey_age: i64,
        now: i64,
    ) -> (responded: Result<(Session, Vec<u8>), Error>)
        requires
            id != HANDSHAKE_MARKER,
            initiator_id != HANDSHAKE_MARKER,
            ephemeral.wf(),
        ensures
            match spec_responder_master(
                local.secret@,
                ephemeral.secret@,
                identity.public_key@,
                initiator_ephemeral@,
                identity.psk@,
                spec_transcript(init_bytes@, initiator_id, id, ephemeral.public@),
            ) {
                Ok(master) => {
                    &&& responded matches Ok((session, datagram))
                    &&& session.wf()
                    &&& datagram@ == spec_encode_response(
                        initiator_id,
                        id,
                        ephemeral.public@,
                        spec_response_tag(master),
                    )
                    &&& session.spec_responded(
                        id,
                        initiator_id,
                        init_bytes@,
                        identity,
                        master,
                        datagram@,
                        rekey_age,
                        now,
                    )
                },
                Err(e) => responded matches Err(f) && f == e,
            },
    {
        let mut datagram: Vec<u8> = Vec::new();
        put_header(&mut datagram, initiator_id, TYPE_RESPONSE);
        put_u64(&mut datagram, id);
        put_bytes(&mut datagram, ephemeral.public.as_slice());
        let mut transcript: Vec<u8> = copy_bytes(init_bytes);
        put_bytes(&mut transcript, datagram.as_slice());
        let master = match responder_master(
            local,
            &ephemeral,
            identity.public_key.as_slice(),
            initiator_ephemeral,
            identity.psk.as_slice(),
            transcript.as_slice(),
        ) {
            Ok(master) => master,
            Err(e) => {
                return Err(e);
            },
        };
        let tag = expand(master.as_slice(), LABEL_RESPONSE_TAG);
        put_bytes(&mut datagram, tag.as_slice());
        let expected = expand(master.as_slice(), LABEL_CONFIRM_TAG);
        let ratchet_key = expand(master.as_slice(), LABEL_RATCHET);
        let key = KeyState::derive(ratchet_key, 1, Role::Responder, false, now, rekey_age);
        let session = Session {
            id,
            remote_id: initiator_id,
            role: Role::Responder,
            state: SessionState::SentResponse,
            remote_static: identity.public_key,
            psk: identity.psk,
            application_data: identity.application_data,
            created_at: now,
            last_sent_at: now,
            ephemeral: None,
            init_bytes: copy_bytes(init_bytes),
            last_message: copy_bytes(datagram.as_slice()),
            expected,
            current: Some(key),
            previous: None,
            rekey_peer: Vec::new(),
            rekey_ack: Vec::new(),
            next_message_id: 0,
            failures: 0,
            reassembler: Reassembler::new(),
        };
        Ok((session, datagram))
    }

    /// The master secret that the initiator derives when the responder
    /// answered with the session identifier `responder_id` and the
    /// ephemeral key `responder_ephemeral`.
    pub open spec fn spec_completion(
        &self,
        local: KeyPair,
        responder_id: u64,
        responder_ephemeral: Seq<u8>,
    ) -> Result<Seq<u8>, Error> {
        spec_initiator_master(
            local.secret@,
            self.ephemeral.unwrap().secret@,
            self.remote_static@,
            responder_ephemeral,
            self.psk@,
            spec_transcript(self.init_bytes@, self.id, responder_id, responder_ephemeral),
        )
    }

    /// Whether `post` and `confirmation` are what [`Session::complete`] makes
    /// of `pre` and a response. Where the responder's tag is the one that the
    /// master secret yields, the session is established under the first key
    /// generation, knows the peer's identifier, and keeps the confirmation to
    /// send it again; the result is that confirmation. Otherwise the failure
    /// is returned and nothing has changed.
    pub open spec fn spec_completed(
        pre: Session,
        local: KeyPair,
        responder_id: u64,
        responder_ephemeral: Seq<u8>,
        tag: Seq<u8>,
        response_bytes: Seq<u8>,
        rekey_age: i64,
        now: i64,
        post: Session,
        confirmation: Result<Vec<u8>, Error>,
    ) -> bool {
        match pre.spec_completion(local, responder_id, responder_ephemeral) {
            Ok(master) if tag == spec_response_tag(master) => {
                &&& confirmation matches Ok(datagram)
                &&& datagram@ == spec_encode_confirm(responder_id, spec_confirm_tag(master))
                &&& post.state == SessionState::Established
                &&& post.remote_id == responder_id
                &&& post.ephemeral is None
                &&& post.last_message@ == datagram@
                &&& post.expected@ == response_bytes
                &&& post.current matches Some(key) && key.spec_derived(
                    spec_first_ratchet_key(master),
                    1,
                    Role::Initiator,
                    true,
                    now,
                    rekey_age,
                )
                &&& post == (Session {
                    state: post.state,
                    remote_id: post.remote_id,
                    ephemeral: post.ephemeral,
                    last_message: post.last_message,
                    expected: post.expected,
                    current: post.current,
                    ..pre
                })
            },
            Ok(_) => {
                &&& confirmation == Err::<Vec<u8>, _>(Error::AuthenticationFailed)
                &&& post == pre
            },
            Err(e) => confirmation == Err::<Vec<u8>, _>(e) && post == pre,
        }
    }

    /// Takes in the response to the initiation: derives the session keys,
    /// verifies the responder's tag, and creates the confirmation to send.
    /// The session is established from then on. Fails with
    /// `InvalidKeyEncoding` where the responder's ephemeral key is no point
    /// of the curve, and with `AuthenticationFailed` where the tag is not
    /// the one that the master secret yields; a failure changes nothing.
    pub fn complete(
        &mut self,
        local: &KeyPair,
        responder_id: u64,
        responder_ephemeral: &[u8],
        tag: &[u8],
        response_bytes: &[u8],
        rekey_age: i64,
        now: i64,
    ) -> (confirmation: Result<Vec<u8>, Error>)
        requires
            old(self).wf(),
            old(self).state == SessionState::SentInit,
            responder_id != HANDSHAKE_MARKER,
        ensures
            final(self).wf(),
            final(self).id == old(self).id,
            Self::spec_completed(*old(self), *local, responder_id, responder_ephemeral@, tag@, response_bytes@, rekey_age, now, *final(self), confirmation),
    {
        let mut transcript: Vec<u8> = copy_bytes(self.init_bytes.as_slice());
        put_header(&mut transcript, self.id, TYPE_RESPONSE);
        put_u64(&mut transcript, responder_id);
        put_bytes(&mut transcript, responder_ephemeral);
        assert(transcript@ =~= spec_transcript(
            self.init_bytes@,
            self.id,
            responder_id,
            responder_ephemeral@,
        ));
        let derived = match &self.ephemeral {
            Some(ephemeral) => initiator_master(
                local,
                ephemeral,
                self.remote_static.as_slice(),
                responder_ephemeral,
                self.psk.as_slice(),
                transcript.as_slice(),
            ),
            None => Err(Error::InvalidKeyEncoding),
        };
        let master = match derived {
            Ok(master) => master,
            Err(e) => {
                return Err(e);
            },
        };
        let awaited = expand(master.as_slice(), LABEL_RESPONSE_TAG);
        if !bytes_equal(tag, awaited.as_slice()) {
            return Err(Error::AuthenticationFailed);
        }
        let mut datagram: Vec<u8> = Vec::new();
        put_header(&mut datagram, responder_id, TYPE_CONFIRM);
        let proof_tag = expand(master.as_slice(), LABEL_CONFIRM_TAG);
        put_bytes(&mut datagram, proof_tag.as_slice());
        let ratchet_key = expand(master.as_slice(), LABEL_RATCHET);
        self.current = Some(KeyState::derive(ratchet_key, 1, Role::Initiator, true, now, rekey_age));
        self.state = SessionState::Established;
        self.remote_id = responder_id;
        self.ephemeral = None;
        self.last_message = copy_bytes(datagram.as_slice());
        self.expected = copy_bytes(response_bytes);
        Ok(datagram)
    }

    /// Whether `post` and `confirmed` are what [`Session::confirm`] makes of
    /// `pre` and a confirmation tag.
    pub open spec fn spec_confirmed(
        pre: Session,
        tag: Seq<u8>,
        post: Session,
        confirmed: Result<(), Error>,
    ) -> bool {
        &&& (tag == pre.expected@ ==> confirmed is Ok && post == (Session {
            state: SessionState::Established,
            ..pre
        }))
        &&& (tag != pre.expected@ ==> confirmed == Err::<(), _>(Error::AuthenticationFailed)
            && post == pre)
    }

    /// Takes in the confirmation of the handshake. The session is
    /// established where the tag is the one awaited. Fails with
    /// `AuthenticationFailed` where it is not, and changes nothing then.
    pub fn confirm(&mut self, tag: &[u8]) -> (confirmed: Result<(), Error>)
        requires
            old(self).wf(),
            old(self).state == SessionState::SentResponse,
        ensures
            final(self).wf(),
            final(self).id == old(self).id,
            Self::spec_confirmed(*old(self), tag@, *final(self), confirmed),
    {
        if bytes_equal(tag, self.expected.as_slice()) {
            self.state = SessionState::Established;
            Ok(())
        } else {
            Err(Error::AuthenticationFailed)
        }
    }

    /// The identifier of the message after the one with identifier `id`.
    pub open spec fn spec_next_message_id(id: u64) -> u64 {
        if id == u64::MAX {
            0
        } else {
            (id + 1) as u64
        }
    }

    /// Why [`Session::send`] refuses a message of `len` bytes, if it does:
    /// the session is not established, its key has reached the usage
    /// ceiling, the message would take more fragments than a message may
    /// have, or sending it would take the key beyond the ceiling.
    pub open spec fn spec_send_refusal(&self, len: nat, settings: Settings) -> Option<Error> {
        let count = spec_fragment_count(len, settings.spec_usable_payload());
        if self.state != SessionState::Established {
            Some(Error::SessionExpired)
        } else if self.current.unwrap().spec_expired(settings.expire_after_uses) {
            Some(Error::SessionExpired)
        } else if count > MAX_FRAGMENTS {
            Some(Error::ResourceExhausted)
        } else if self.current.unwrap().spec_uses() + count > settings.expire_after_uses {
            Some(Error::SessionExpired)
        } else {
            None
        }
    }

    /// Whether `post` and `sent` are what [`Session::send`] makes of `pre`
    /// and a message. A refusal for the usage ceiling expires the session,
    /// any other changes nothing. Otherwise there is one datagram for each
    /// fragment of the message, in order, each sealed under the counter
    /// that follows the one before it and longer than its fragment by the
    /// fixed overhead, so that it fits the datagram size; the key has moved
    /// on by as many counters, and the next message gets the next
    /// identifier.
    pub open spec fn spec_sent(
        pre: Session,
        message: Seq<u8>,
        settings: Settings,
        post: Session,
        sent: Result<Vec<Vec<u8>>, Error>,
    ) -> bool {
        match pre.spec_send_refusal(message.len(), settings) {
            Some(e) => {
                &&& sent matches Err(f) && f == e
                &&& post == if pre.state == SessionState::Established {
                    pre.spec_flagged(e)
                } else {
                    pre
                }
            },
            None => {
                let key = pre.current.unwrap();
                let pieces = spec_fragments(message, settings.spec_usable_payload());
                &&& sent matches Ok(datagrams)
                &&& datagrams@.len() == pieces.len()
                &&& forall|i: int|
                    0 <= i < pieces.len() ==> (#[trigger] datagrams@[i])@.len()
                        == PROTECTED_OVERHEAD + pieces[i].len()
                &&& forall|i: int|
                    0 <= i < pieces.len() ==> (#[trigger] datagrams@[i])@.len() <= settings.mtu
                &&& forall|i: int|
                    0 <= i < pieces.len() ==> key.spec_fragment_datagram(
                        pre.remote_id,
                        pre.next_message_id,
                        pieces,
                        i,
                        settings.expire_after_uses,
                    ) == Ok::<_, Error>((#[trigger] datagrams@[i])@)
                &&& post == (Session {
                    current: Some(
                        KeyState { send_counter: (key.send_counter + pieces.len()) as u64, ..key },
                    ),
                    next_message_id: Self::spec_next_message_id(pre.next_message_id),
                    ..pre
                })
            },
        }
    }

    /// Sends an application message: cuts it into fragments that fit the
    /// datagram size, and seals each under the next counter of the current
    /// key. The datagrams are returned in the order of the fragments.
    ///
    /// Fails with `SessionExpired` where the session is not established or
    /// the message would take the key beyond its usage ceiling, and the
    /// session is expired from then on; and with `ResourceExhausted` where
    /// the message is too long to be sent at all.
    pub fn send(&mut self, message: &[u8], settings: &Settings) -> (sent: Result<
        Vec<Vec<u8>>,
        Error,
    >)
        requires
            old(self).wf(),
            settings.wf(),
        ensures
            final(self).wf(),
            final(self).id == old(self).id,
            Self::spec_sent(*old(self), message@, *settings, *final(self), sent),
    {
        if !matches!(self.state, SessionState::Established) {
            return Err(Error::SessionExpired);
        }
        let limit = settings.expire_after_uses;
        let worn = match &self.current {
            Some(key) => key.uses() >= limit,
            None => true,
        };
        if worn {
            self.state = SessionState::Expired;
            return Err(Error::SessionExpired);
        }
        let usable = settings.usable_payload();
        let count = fragment_count(message.len(), usable);
        if count > MAX_FRAGMENTS as usize {
            return Err(Error::ResourceExhausted);
        }
        let remote_id = self.remote_id;
        let message_id = self.next_message_id;
        proof {
            lemma_fragments_reassemble(message@, usable as nat);
        }
        let sent = match &mut self.current {
            Some(key) => {
                if key.uses() + count as u64 > limit {
                    None
                } else {
                    let pieces = split(message, usable);
                    assert(byte_strings(pieces@).len() == pieces@.len());
                    assert forall|i: int| 0 <= i < pieces@.len() implies (#[trigger] pieces@[i])@.len()
                        <= CIPHER_MAX_INPUT by {
                        assert(byte_strings(pieces@)[i] == pieces@[i]@);
                    }
                    Some(key.seal_fragments(remote_id, message_id, &pieces, limit))
                }
            },
            None => None,
        };
        match sent {
            Some(datagrams) => {
                self.next_message_id = if message_id == u64::MAX {
                    0
                } else {
                    message_id + 1
                };
                Ok(datagrams)
            },
            None => {
                self.state = SessionState::Expired;
                Err(Error::SessionExpired)
            },
        }
    }

    /// The key that a datagram of generation `generation` was sealed for.
    pub open spec fn spec_slot(&self, generation: u64) -> Option<KeySlot> {
        if self.current matches Some(key) && key.generation == generation {
            Some(KeySlot::Current)
        } else if self.previous matches Some(key) && key.generation == generation {
            Some(KeySlot::Previous)
        } else {
            None
        }
    }

    /// Whether the session is established and its current key has reached
    /// the usage ceiling `limit`. Such a session is of no use any more:
    /// whatever is sent on it or arrives for it finds it expired.
    pub open spec fn spec_worn(&self, limit: u64) -> bool {
        self.state == SessionState::Established && self.current.unwrap().spec_expired(limit)
    }

    /// Whether the session is established and its current key has reached
    /// the usage ceiling.
    pub fn worn(&self, limit: u64) -> (is_worn: bool)
        requires
            self.wf(),
        ensures
            is_worn == self.spec_worn(limit),
    {
        match self.state {
            SessionState::Established => match &self.current {
                Some(key) => key.uses() >= limit,
                None => false,
            },
            _ => false,
        }
    }

    /// Expires the session. Nothing else changes.
    pub fn expire(&mut self)
        requires
            old(self).wf(),
        ensures
            final(self).wf(),
            *final(self) == (Session { state: SessionState::Expired, ..*old(self) }),
    {
        self.state = SessionState::Expired;
    }

    /// What opening a protected datagram yields. A session that is not
    /// established, or whose current key has reached the usage ceiling,
    /// opens nothing, whatever the generation of the datagram. Else an
    /// authentication failure where the session has no key of the
    /// datagram's generation, or only a previous key that has itself
    /// reached the ceiling; and else what the key of that generation makes
    /// of it.
    pub open spec fn spec_open_packet(
        &self,
        header: ProtectedHeader,
        sealed: Seq<u8>,
        limit: u64,
    ) -> Result<Seq<u8>, Error> {
        if self.state != SessionState::Established || self.spec_worn(limit) {
            Err(Error::SessionExpired)
        } else {
            match self.spec_slot(header.generation) {
                Some(KeySlot::Current) => self.current.unwrap().spec_open(header, sealed, limit),
                Some(KeySlot::Previous) => if self.previous.unwrap().spec_expired(limit) {
                    Err(Error::AuthenticationFailed)
                } else {
                    self.previous.unwrap().spec_open(header, sealed, limit)
                },
                None => Err(Error::AuthenticationFailed),
            }
        }
    }

    /// What a datagram whose tag does not verify leaves of a session: one
    /// more failure in a row, and an expired session where that was one too
    /// many.
    pub open spec fn spec_failed(self) -> Session {
        Session {
            failures: (self.failures + 1) as u32,
            state: if self.failures + 1 >= FAILURE_LIMIT {
                SessionState::Expired
            } else {
                self.state
            },
            ..self
        }
    }

    /// Whether `post` is what opening a protected datagram makes of `pre`.
    ///
    /// A datagram that opens is counted by the key that opened it, and
    /// ends a run of failures. A datagram that finds the current key at its
    /// usage ceiling expires the session, whatever its generation. A
    /// datagram that finds the previous key at the ceiling has that key
    /// forgotten. A datagram whose tag does not verify under the key of its
    /// generation is counted as a failure, and expires the session when
    /// `FAILURE_LIMIT` of them came in a row. Every other failure changes
    /// nothing.
    pub open spec fn spec_opened(
        pre: Session,
        header: ProtectedHeader,
        sealed: Seq<u8>,
        limit: u64,
        post: Session,
    ) -> bool {
        match pre.spec_open_packet(header, sealed, limit) {
            Ok(_) => match pre.spec_slot(header.generation) {
                Some(KeySlot::Current) => {
                    &&& post == (Session { current: post.current, failures: 0, ..pre })
                    &&& post.current matches Some(key) && KeyState::spec_counted(
                        pre.current.unwrap(),
                        header.counter,
                        key,
                    )
                },
                Some(KeySlot::Previous) => {
                    &&& post == (Session { previous: post.previous, failures: 0, ..pre })
                    &&& post.previous matches Some(key) && KeyState::spec_counted(
                        pre.previous.unwrap(),
                        header.counter,
                        key,
                    )
                },
                None => false,
            },
            Err(e) => post == if pre.state != SessionState::Established {
                pre
            } else if pre.spec_worn(limit) {
                Session { state: SessionState::Expired, ..pre }
            } else {
                match pre.spec_slot(header.generation) {
                    None => pre,
                    Some(KeySlot::Previous) if pre.previous.unwrap().spec_expired(limit) => Session {
                        previous: None,
                        ..pre
                    },
                    Some(_) => if e == Error::AuthenticationFailed {
                        pre.spec_failed()
                    } else {
                        pre
                    },
                }
            },
        }
    }

    /// Opens a protected datagram with the key of its generation.
    pub fn open_packet(&mut self, header: &ProtectedHeader, sealed: &[u8], limit: u64) -> (plaintext:
        Result<Vec<u8>, Error>)
        requires
            old(self).wf(),
            limit <= MAX_USES,
        ensures
            final(self).wf(),
            final(self).id == old(self).id,
            bytes_result(plaintext) == old(self).spec_open_packet(*header, sealed@, limit),
            Self::spec_opened(*old(self), *header, sealed@, limit, *final(self)),
    {
        if !matches!(self.state, SessionState::Established) {
            return Err(Error::SessionExpired);
        }
        if self.worn(limit) {
            self.state = SessionState::Expired;
            return Err(Error::SessionExpired);
        }
        let mut slot: Option<KeySlot> = None;
        match &self.current {
            Some(key) => {
                if key.generation == header.generation {
                    slot = Some(KeySlot::Current);
                }
            },
            None => {},
        }
        let mut spent: bool = false;
        if slot.is_none() {
            match &self.previous {
                Some(key) => {
                    if key.generation == header.generation {
                        slot = Some(KeySlot::Previous);
                        spent = key.uses() >= limit;
                    }
                },
                None => {},
            }
        }
        if spent {
            let mut holder: Option<KeyState> = None;
            core::mem::swap(&mut self.previous, &mut holder);
            match holder {
                Some(key) => {
                    let mut key = key;
                    key.erase();
                },
                None => {},
            }
            return Err(Error::AuthenticationFailed);
        }
        let opened = match slot {
            Some(KeySlot::Current) => {
                match &mut self.current {
                    Some(key) => key.open(header, sealed, limit),
                    None => Err(Error::SessionExpired),
                }
            },
            Some(KeySlot::Previous) => {
                match &mut self.previous {
                    Some(key) => key.open(header, sealed, limit),
                    None => Err(Error::SessionExpired),
                }
            },
            None => {
                return Err(Error::AuthenticationFailed);
            },
        };
        match opened {
            Ok(_) => {
                self.failures = 0;
            },
            Err(Error::AuthenticationFailed) => {
                self.failures = self.failures + 1;
                if self.failures >= FAILURE_LIMIT {
                    self.state = SessionState::Expired;
                }
            },
            Err(_) => {},
        }
        opened
    }

    /// Whether `post` and `delivered` are what [`Session::receive_data`] makes
    /// of `pre` and a data fragment.
    pub open spec fn spec_received_data(
        pre: Session,
        header: ProtectedHeader,
        sealed: Seq<u8>,
        now: i64,
        limit: u64,
        post: Session,
        delivered: Result<Option<Vec<u8>>, Error>,
    ) -> bool {
        match pre.spec_open_packet(header, sealed, limit) {
            Ok(plaintext) => {
                &&& Self::spec_opened(
                    pre,
                    header,
                    sealed,
                    limit,
                    Session { reassembler: pre.reassembler, ..post },
                )
                &&& (post.reassembler@, released_view(delivered)) == spec_accept(
                    pre.reassembler@,
                    header.message_id,
                    header.index,
                    header.count,
                    plaintext,
                    now,
                )
            },
            Err(e) => {
                &&& delivered matches Err(f) && f == e
                &&& Self::spec_opened(pre, header, sealed, limit, post)
            },
        }
    }

    /// Takes in one fragment of an application message, and hands the
    /// message out when it is complete.
    ///
    /// The datagram is opened first: a failure there is reported as it is,
    /// and leaves the session as [`Session::spec_opened`] says. A fragment
    /// that opened has used up its counter, whatever the reassembler then
    /// makes of it.
    pub fn receive_data(&mut self, header: &ProtectedHeader, sealed: &[u8], now: i64, limit: u64) -> (delivered:
        Result<Option<Vec<u8>>, Error>)
        requires
            old(self).wf(),
            header.wf(),
            limit <= MAX_USES,
        ensures
            final(self).wf(),
            final(self).id == old(self).id,
            Self::spec_received_data(*old(self), *header, sealed@, now, limit, *final(self), delivered),
    {
        let plaintext = match self.open_packet(header, sealed, limit) {
            Ok(plaintext) => plaintext,
            Err(e) => {
                return Err(e);
            },
        };
        self.reassembler.accept(header.message_id, header.index, header.count, plaintext, now)
    }

    /// What a failure to seal under the current key leaves of a session: a
    /// key at its usage ceiling expires the session, anything else changes
    /// nothing.
    pub open spec fn spec_flagged(self, e: Error) -> Session {
        if e == Error::SessionExpired {
            Session { state: SessionState::Expired, ..self }
        } else {
            self
        }
    }

    /// Whether `post` and `request` are what [`Session::request_rekey`] makes
    /// of `pre`.
    pub open spec fn spec_rekey_requested(
        pre: Session,
        fresh: Option<KeyPair>,
        now: i64,
        limit: u64,
        post: Session,
        request: Result<Vec<u8>, Error>,
    ) -> bool {
        ({
            let pending = if fresh is Some {
                fresh.unwrap()
            } else {
                pre.ephemeral.unwrap()
            };
            let outcome = pre.current.unwrap().spec_seal(
                pre.remote_id,
                ProtectedKind::RekeyInit,
                0,
                0,
                1,
                pending.public@,
                limit,
            );
            match outcome.1 {
                Ok(datagram) => {
                    &&& request matches Ok(d) && d@ == datagram
                    &&& post == (Session {
                        current: Some(outcome.0),
                        ephemeral: Some(pending),
                        last_sent_at: now,
                        ..pre
                    })
                },
                Err(e) => {
                    &&& request matches Err(f) && f == e
                    &&& post == pre.spec_flagged(e)
                },
            }
        })
    }

    /// Asks the peer for a ratchet: seals this party's ephemeral public key
    /// under the current key. With `fresh` a new exchange is started; without
    /// it the request of the pending exchange is made again, under a new
    /// counter. Fails with `SessionExpired` where the key has reached its
    /// usage ceiling, and the session is expired from then on.
    pub fn request_rekey(&mut self, fresh: Option<KeyPair>, now: i64, limit: u64) -> (request:
        Result<Vec<u8>, Error>)
        requires
            old(self).wf(),
            old(self).state == SessionState::Established,
            fresh matches Some(pair) ==> pair.wf(),
            fresh is Some || old(self).ephemeral is Some,
            limit <= MAX_USES,
        ensures
            final(self).wf(),
            final(self).id == old(self).id,
            Self::spec_rekey_requested(*old(self), fresh, now, limit, *final(self), request),
            !old(self).current.unwrap().spec_expired(limit) ==> request is Ok,
    {
        let public = match &fresh {
            Some(pair) => copy_bytes(pair.public.as_slice()),
            None => match &self.ephemeral {
                Some(pair) => copy_bytes(pair.public.as_slice()),
                None => Vec::new(),
            },
        };
        let remote_id = self.remote_id;
        let sealed = match &mut self.current {
            Some(key) => key.seal(
                remote_id,
                ProtectedKind::RekeyInit,
                0,
                0,
                1,
                public.as_slice(),
                limit,
            ),
            None => Err(Error::SessionExpired),
        };
        match sealed {
            Ok(datagram) => {
                if fresh.is_some() {
                    self.ephemeral = fresh;
                }
                self.last_sent_at = now;
                Ok(datagram)
            },
            Err(e) => {
                if matches!(e, Error::SessionExpired) {
                    self.state = SessionState::Expired;
                }
                Err(e)
            },
        }
    }

    /// Whether `post` and `answer` are what [`Session::answer_rekey`] makes of
    /// `pre` and a request for a ratchet.
    pub open spec fn spec_rekey_answered(
        pre: Session,
        header: ProtectedHeader,
        sealed: Seq<u8>,
        fresh: KeyPair,
        rekey_age: i64,
        now: i64,
        limit: u64,
        post: Session,
        answer: Result<Vec<u8>, Error>,
    ) -> bool {
        &&& (pre.state != SessionState::Established ==> {
            &&& answer matches Err(e) && e == Error::SessionExpired
            &&& post == pre
        })
        &&& (pre.spec_worn(limit) ==> {
            &&& answer matches Err(e) && e == Error::SessionExpired
            &&& post == (Session { state: SessionState::Expired, ..pre })
        })
        &&& (pre.state == SessionState::Established && !pre.spec_worn(limit) ==> match pre.spec_slot(
            header.generation,
        ) {
            None => {
                &&& answer matches Err(e) && e == Error::AuthenticationFailed
                &&& post == pre
            },
            Some(KeySlot::Previous) => {
                &&& Self::spec_opened(pre, header, sealed, limit, post)
                &&& match pre.spec_open_packet(header, sealed, limit) {
                    Ok(peer) => if peer.len() == PUBLIC_KEY_SIZE && peer == pre.rekey_peer@ {
                        answer matches Ok(a) && a@ == pre.rekey_ack@
                    } else {
                        answer matches Err(e) && e == Error::MalformedPacket
                    },
                    Err(e) => answer matches Err(f) && f == e,
                }
            },
            Some(KeySlot::Current) => {
                let key = pre.current.unwrap();
                if !key.initiated_locally {
                    &&& answer matches Err(e) && e == Error::MalformedPacket
                    &&& post == pre
                } else if key.generation == u64::MAX {
                    &&& answer matches Err(e) && e == Error::SessionExpired
                    &&& post == pre.spec_flagged(Error::SessionExpired)
                } else {
                    match pre.spec_open_packet(header, sealed, limit) {
                        Err(e) => {
                            &&& answer matches Err(f) && f == e
                            &&& Self::spec_opened(
                                pre,
                                header,
                                sealed,
                                limit,
                                post,
                            )
                        },
                        Ok(peer) => match spec_agree(fresh.secret@, peer) {
                            Err(e) => {
                                &&& answer matches Err(f) && f == e
                                &&& Self::spec_opened(
                                    pre,
                                    header,
                                    sealed,
                                    limit,
                                    post,
                                )
                            },
                            Ok(shared) => pre.spec_answered(
                                header,
                                sealed,
                                fresh,
                                peer,
                                shared,
                                rekey_age,
                                now,
                                limit,
                                post,
                                bytes_result(answer),
                            ),
                        },
                    }
                }
            },
        })
    }

    /// Answers the peer's request for a ratchet, and moves on to the next
    /// key generation.
    ///
    /// The request is opened with the key of its generation. Under the
    /// current key it is a new request: this party draws on `fresh` for its
    /// half of the exchange, seals its public key as the acknowledgement,
    /// still under the current key, and only then derives the next
    /// generation; the current one is kept to receive what is still under
    /// way. Under the previous key it is a request that was answered before:
    /// the same acknowledgement is returned again.
    ///
    /// Fails with `SessionExpired` where the session is not established,
    /// its key has reached the usage ceiling, or its key can go no
    /// further; with `AuthenticationFailed` where the session has no key of
    /// the request's generation; with
    /// `MalformedPacket` where it is not the peer's turn to ask, or a
    /// repeated request differs from the one answered; with
    /// `InvalidKeyEncoding` where the peer's key is no point of the curve;
    /// and with whatever opening the datagram fails with.
    pub fn answer_rekey(
        &mut self,
        header: &ProtectedHeader,
        sealed: &[u8],
        fresh: KeyPair,
        rekey_age: i64,
        now: i64,
        limit: u64,
    ) -> (answer: Result<Vec<u8>, Error>)
        requires
            old(self).wf(),
            fresh.wf(),
            limit <= MAX_USES,
        ensures
            final(self).wf(),
            final(self).id == old(self).id,
            Self::spec_rekey_answered(*old(self), *header, sealed@, fresh, rekey_age, now, limit, *final(self), answer),
    {
        if !matches!(self.state, SessionState::Established) {
            return Err(Error::SessionExpired);
        }
        if self.worn(limit) {
            self.state = SessionState::Expired;
            return Err(Error::SessionExpired);
        }
        let mut slot: Option<KeySlot> = None;
        let mut entitled: bool = false;
        let mut last: bool = false;
        match &self.current {
            Some(key) => {
                if key.generation == header.generation {
                    slot = Some(KeySlot::Current);
                    entitled = key.initiated_locally;
                    last = key.generation == u64::MAX;
                }
            },
            None => {},
        }
        if slot.is_none() {
            match &self.previous {
                Some(key) => {
                    if key.generation == header.generation {
                        slot = Some(KeySlot::Previous);
                    }
                },
                None => {},
            }
        }
        match slot {
            None => Err(Error::AuthenticationFailed),
            Some(KeySlot::Previous) => {
                let peer = match self.open_packet(header, sealed, limit) {
                    Ok(peer) => peer,
                    Err(e) => {
                        return Err(e);
                    },
                };
                if peer.len() == PUBLIC_KEY_SIZE && bytes_equal(
                    peer.as_slice(),
                    self.rekey_peer.as_slice(),
                ) {
                    Ok(copy_bytes(self.rekey_ack.as_slice()))
                } else {
                    Err(Error::MalformedPacket)
                }
            },
            Some(KeySlot::Current) => {
                if !entitled {
                    return Err(Error::MalformedPacket);
                }
                if last {
                    self.state = SessionState::Expired;
                    return Err(Error::SessionExpired);
                }
                let peer = match self.open_packet(header, sealed, limit) {
                    Ok(peer) => peer,
                    Err(e) => {
                        return Err(e);
                    },
                };
                let shared = match fresh.agree(peer.as_slice()) {
                    Ok(shared) => shared,
                    Err(e) => {
                        return Err(e);
                    },
                };
                let remote_id = self.remote_id;
                let role = self.role;
                let acknowledged = match &mut self.current {
                    Some(key) => {
                        match key.seal(
                            remote_id,
                            ProtectedKind::RekeyAck,
                            0,
                            0,
                            1,
                            fresh.public.as_slice(),
                            limit,
                        ) {
                            Ok(ack) => {
                                let next = key.ratchet(shared.as_slice(), role, false, now, rekey_age);
                                Ok((ack, next))
                            },
                            Err(e) => Err(e),
                        }
                    },
                    None => Err(Error::SessionExpired),
                };
                match acknowledged {
                    Ok((ack, next)) => {
                        let mut holder: Option<KeyState> = Some(next);
                        core::mem::swap(&mut self.current, &mut holder);
                        self.previous = holder;
                        self.rekey_peer = peer;
                        self.rekey_ack = copy_bytes(ack.as_slice());
                        Ok(ack)
                    },
                    Err(e) => {
                        if matches!(e, Error::SessionExpired) {
                            self.state = SessionState::Expired;
                        }
                        Err(e)
                    },
                }
            },
        }
    }

    /// Whether `post` and `finished` are what [`Session::finish_rekey`] makes
    /// of `pre` and an acknowledgement.
    pub open spec fn spec_rekey_finished(
        pre: Session,
        header: ProtectedHeader,
        sealed: Seq<u8>,
        rekey_age: i64,
        now: i64,
        limit: u64,
        post: Session,
        finished: Result<(), Error>,
    ) -> bool {
        match pre.spec_finish_refusal(header, limit) {
            Some(e) => {
                &&& finished matches Err(f) && f == e
                &&& post == if pre.state == SessionState::Established {
                    pre.spec_flagged(e)
                } else {
                    pre
                }
            },
            None => match pre.spec_open_packet(header, sealed, limit) {
                Err(e) => {
                    &&& finished matches Err(f) && f == e
                    &&& Self::spec_opened(pre, header, sealed, limit, post)
                },
                Ok(peer) => match spec_agree(pre.ephemeral.unwrap().secret@, peer) {
                    Err(e) => {
                        &&& finished matches Err(f) && f == e
                        &&& Self::spec_opened(
                            pre,
                            header,
                            sealed,
                            limit,
                            post,
                        )
                    },
                    Ok(shared) => {
                        &&& finished is Ok
                        &&& post == (Session {
                            ephemeral: None,
                            current: post.current,
                            previous: post.previous,
                            failures: 0,
                            ..pre
                        })
                        &&& post.previous matches Some(opener)
                        &&& post.current matches Some(next)
                        &&& KeyState::spec_counted(
                            pre.current.unwrap(),
                            header.counter,
                            opener,
                        )
                        &&& next.spec_derived(
                            spec_ratchet_key(opener.ratchet_key@, shared),
                            (opener.generation + 1) as u64,
                            pre.role,
                            true,
                            now,
                            rekey_age,
                        )
                    },
                },
            },
        }
    }

    /// Takes in the peer's acknowledgement of a ratchet that this party
    /// asked for, and moves on to the next key generation. The current
    /// generation is kept to receive what is still under way, and the
    /// pending exchange is over.
    ///
    /// Fails with `SessionExpired` where the session is not established,
    /// its key has reached the usage ceiling, or its key can go no
    /// further; with `MalformedPacket` where no exchange
    /// is pending; with `AuthenticationFailed` where the acknowledgement is
    /// not of the current generation; with `InvalidKeyEncoding` where the
    /// peer's key is no point of the curve; and with whatever opening the
    /// datagram fails with.
    pub fn finish_rekey(
        &mut self,
        header: &ProtectedHeader,
        sealed: &[u8],
        rekey_age: i64,
        now: i64,
        limit: u64,
    ) -> (finished: Result<(), Error>)
        requires
            old(self).wf(),
            limit <= MAX_USES,
        ensures
            final(self).wf(),
            final(self).id == old(self).id,
            Self::spec_rekey_finished(*old(self), *header, sealed@, rekey_age, now, limit, *final(self), finished),
    {
        if !matches!(self.state, SessionState::Established) {
            return Err(Error::SessionExpired);
        }
        if self.worn(limit) {
            self.state = SessionState::Expired;
            return Err(Error::SessionExpired);
        }
        if self.ephemeral.is_none() {
            return Err(Error::MalformedPacket);
        }
        let (matching, last) = match &self.current {
            Some(key) => (key.generation == header.generation, key.generation == u64::MAX),
            None => (false, false),
        };
        if !matching {
            return Err(Error::AuthenticationFailed);
        }
        if last {
            self.state = SessionState::Expired;
            return Err(Error::SessionExpired);
        }
        let peer = match self.open_packet(header, sealed, limit) {
            Ok(peer) => peer,
            Err(e) => {
                return Err(e);
            },
        };
        let agreed = match &self.ephemeral {
            Some(pending) => pending.agree(peer.as_slice()),
            None => Err(Error::MalformedPacket),
        };
        let shared = match agreed {
            Ok(shared) => shared,
            Err(e) => {
                return Err(e);
            },
        };
        let role = self.role;
        let derived = match &self.current {
            Some(key) => Some(key.ratchet(shared.as_slice(), role, true, now, rekey_age)),
            None => None,
        };
        match derived {
            Some(next) => {
                let mut holder: Option<KeyState> = Some(next);
                core::mem::swap(&mut self.current, &mut holder);
                self.previous = holder;
                self.ephemeral = None;
                Ok(())
            },
            None => Err(Error::SessionExpired),
        }
    }

    /// Why [`Session::finish_rekey`] refuses an acknowledgement before it
    /// opens it, if it does.
    pub open spec fn spec_finish_refusal(&self, header: ProtectedHeader, limit: u64) -> Option<Error> {
        if self.state != SessionState::Established {
            Some(Error::SessionExpired)
        } else if self.spec_worn(limit) {
            Some(Error::SessionExpired)
        } else if self.ephemeral is None {
            Some(Error::MalformedPacket)
        } else if self.spec_slot(header.generation) != Some(KeySlot::Current) {
            Some(Error::AuthenticationFailed)
        } else if self.current.unwrap().generation == u64::MAX {
            Some(Error::SessionExpired)
        } else {
            None
        }
    }

    /// Hands out the handshake message to send again, and notes when.
    pub fn resend(&mut self, now: i64) -> (datagram: Vec<u8>)
        requires
            old(self).wf(),
        ensures
            final(self).wf(),
            final(self).id == old(self).id,
            datagram@ == old(self).last_message@,
            *final(self) == (Session { last_sent_at: now, ..*old(self) }),
    {
        self.last_sent_at = now;
        copy_bytes(self.last_message.as_slice())
    }

    /// Whether it is this party's turn to ask for the next ratchet: the
    /// side that answered the last exchange starts the next one.
    pub open spec fn spec_rekey_turn(&self) -> bool {
        &&& self.state == SessionState::Established
        &&& !self.current.unwrap().initiated_locally
        &&& self.current.unwrap().generation < u64::MAX
    }

    /// What the maintenance sweep owes a session at time `now`.
    ///
    /// A session in a handshake is closed when the negotiation has taken
    /// too long, and has its last message sent again when the retry
    /// interval has passed. An established session is closed when its key
    /// has reached the usage ceiling; when a ratchet is due and it is this
    /// party's turn, the ratchet is asked for, and asked for again each
    /// time the retry interval passes without an answer. Otherwise the
    /// duty is to wait, for as long as it takes until the next of these
    /// falls due by the clock, and no longer than the retry interval.
    pub open spec fn spec_duty(&self, now: i64, settings: Settings) -> Duty {
        match self.state {
            SessionState::Established => {
                let key = self.current.unwrap();
                if key.spec_expired(settings.expire_after_uses) {
                    Duty::Close(Error::SessionExpired)
                } else if self.spec_rekey_turn() {
                    if key.spec_rekey_due(now, settings.rekey_after_uses) {
                        if self.ephemeral is None {
                            Duty::Rekey
                        } else if spec_due(now, self.last_sent_at, settings.retry_interval_ms) {
                            Duty::RetryRekey
                        } else {
                            Duty::Wait(
                                spec_remaining(now, self.last_sent_at, settings.retry_interval_ms),
                            )
                        }
                    } else {
                        let left = spec_remaining(now, key.created_at, key.rekey_age);
                        Duty::Wait(
                            if left <= settings.retry_interval_ms {
                                left
                            } else {
                                settings.retry_interval_ms
                            },
                        )
                    }
                } else {
                    Duty::Wait(settings.retry_interval_ms)
                }
            },
            SessionState::SentInit | SessionState::SentResponse => {
                if spec_due(now, self.created_at, settings.negotiation_timeout_ms) {
                    Duty::Close(Error::NegotiationTimedOut)
                } else if spec_due(now, self.last_sent_at, settings.retry_interval_ms) {
                    Duty::Resend
                } else {
                    let timeout = spec_remaining(
                        now,
                        self.created_at,
                        settings.negotiation_timeout_ms,
                    );
                    let retry = spec_remaining(now, self.last_sent_at, settings.retry_interval_ms);
                    Duty::Wait(
                        if timeout <= retry {
                            timeout
                        } else {
                            retry
                        },
                    )
                }
            },
            _ => Duty::Close(Error::SessionExpired),
        }
    }

    /// Decides what the maintenance sweep owes this session at time `now`.
    pub fn duty(&self, now: i64, settings: &Settings) -> (duty: Duty)
        requires
            self.wf(),
            settings.wf(),
        ensures
            duty == self.spec_duty(now, *settings),
            duty matches Duty::Wait(ms) ==> 0 < ms <= settings.retry_interval_ms,
    {
        match self.state {
            SessionState::Established => {
                match &self.current {
                    Some(key) => {
                        if key.uses() >= settings.expire_after_uses {
                            Duty::Close(Error::SessionExpired)
                        } else if !key.initiated_locally && key.generation < u64::MAX {
                            if key.rekey_due(now, settings.rekey_after_uses) {
                                if self.ephemeral.is_none() {
                                    Duty::Rekey
                                } else if due(now, self.last_sent_at, settings.retry_interval_ms) {
                                    Duty::RetryRekey
                                } else {
                                    Duty::Wait(
                                        remaining(
                                            now,
                                            self.last_sent_at,
                                            settings.retry_interval_ms,
                                        ),
                                    )
                                }
                            } else {
                                Duty::Wait(
                                    sooner(
                                        remaining(now, key.created_at, key.rekey_age),
                                        settings.retry_interval_ms,
                                    ),
                                )
                            }
                        } else {
                            Duty::Wait(settings.retry_interval_ms)
                        }
                    },
                    None => Duty::Close(Error::SessionExpired),
                }
            },
            SessionState::SentInit | SessionState::SentResponse => {
                if due(now, self.created_at, settings.negotiation_timeout_ms) {
                    Duty::Close(Error::NegotiationTimedOut)
                } else if due(now, self.last_sent_at, settings.retry_interval_ms) {
                    Duty::Resend
                } else {
                    Duty::Wait(
                        sooner(
                            remaining(now, self.created_at, settings.negotiation_timeout_ms),
                            remaining(now, self.last_sent_at, settings.retry_interval_ms),
                        ),
                    )
                }
            },
            _ => Duty::Close(Error::SessionExpired),
        }
    }

    /// Whether no key material is left in this session.
    pub open spec fn spec_erased(&self) -> bool {
        &&& self.state == SessionState::Expired
        &&& spec_wiped(self.psk@)
        &&& self.ephemeral is None
        &&& (self.current matches Some(key) ==> key.spec_erased())
        &&& (self.previous matches Some(key) ==> key.spec_erased())
    }

    /// Closes the session for good: it is expired, and its key material
    /// is overwritten with zeros.
    pub fn erase(&mut self)
        requires
            old(self).wf(),
        ensures
            final(self).wf(),
            final(self).id == old(self).id,
            final(self).spec_erased(),
    {
        self.state = SessionState::Expired;
        wipe(&mut self.psk);
        let mut pending: Option<KeyPair> = None;
        core::mem::swap(&mut self.ephemeral, &mut pending);
        match pending {
            Some(pair) => {
                let mut pair = pair;
                wipe(&mut pair.secret);
            },
            None => {},
        }
        match &mut self.current {
            Some(key) => {
                key.erase();
            },
            None => {},
        }
        match &mut self.previous {
            Some(key) => {
                key.erase();
            },
            None => {},
        }
    }

    /// Whether `post` and `owed` are what asking for a ratchet with the key
    /// pair `pending` makes of the session `tidy`: where the key in use
    /// seals the request, the request is owed to the caller, the exchange
    /// is pending, and the time of sending is noted; where it does not,
    /// nothing is owed and the session is as the failure leaves it.
    pub open spec fn spec_requested(
        tidy: Session,
        pending: KeyPair,
        now: i64,
        limit: u64,
        post: Session,
        owed: Option<Seq<u8>>,
    ) -> bool {
        let outcome = tidy.current.unwrap().spec_seal(
            tidy.remote_id,
            ProtectedKind::RekeyInit,
            0,
            0,
            1,
            pending.public@,
            limit,
        );
        match outcome.1 {
            Ok(datagram) => {
                &&& owed == Some(datagram)
                &&& post == (Session {
                    current: Some(outcome.0),
                    ephemeral: Some(pending),
                    last_sent_at: now,
                    ..tidy
                })
            },
            Err(e) => owed is None && post == tidy.spec_flagged(e),
        }
    }

    /// Whether `post` and `owed` are what [`Session::sweep`] makes of a
    /// session that the maintenance sweep keeps, given the key pair that
    /// was drawn for it, if one was.
    ///
    /// Messages that stayed incomplete for too long are dropped. Beyond
    /// that, a session that is owed a wait is left alone. One that is owed
    /// its last handshake message again has that message handed out and
    /// the time of sending noted. One that is owed a request for a ratchet
    /// asks for it with the key pair drawn, and is left alone where none
    /// was drawn; one that asked before asks again with the key pair of
    /// the pending exchange.
    pub open spec fn spec_sweep(
        pre: Session,
        fresh: Option<KeyPair>,
        now: i64,
        settings: Settings,
        post: Session,
        owed: Option<Seq<u8>>,
    ) -> bool {
        let tidy = Session { reassembler: post.reassembler, ..pre };
        &&& post.reassembler@ == spec_evict(pre.reassembler@, now, REASSEMBLY_TIMEOUT_MS)
        &&& match pre.spec_duty(now, settings) {
            Duty::Wait(_) => post == tidy && owed is None,
            Duty::Resend => post == (Session { last_sent_at: now, ..tidy }) && owed == Some(
                pre.last_message@,
            ),
            Duty::Rekey => match fresh {
                Some(pair) => Self::spec_requested(
                    tidy,
                    pair,
                    now,
                    settings.expire_after_uses,
                    post,
                    owed,
                ),
                None => post == tidy && owed is None,
            },
            Duty::RetryRekey => Self::spec_requested(
                tidy,
                pre.ephemeral.unwrap(),
                now,
                settings.expire_after_uses,
                post,
                owed,
            ),
            Duty::Close(_) => false,
        }
    }

    /// Whether `post` is what the maintenance sweep at time `now` makes of
    /// a session that it keeps: what [`Session::spec_sweep`] says, for the
    /// key pair that was drawn for it, or for none.
    pub open spec fn spec_serviced(pre: Session, now: i64, settings: Settings, post: Session) -> bool {
        exists|fresh: Option<KeyPair>|
            (fresh matches Some(pair) ==> pair.wf()) && #[trigger] Self::spec_sweep(
                pre,
                fresh,
                now,
                settings,
                post,
                Self::spec_owed(pre, now, settings, post),
            )
    }

    /// The datagram that the maintenance sweep at time `now` hands out for
    /// a session that it keeps, given what the sweep left of the session.
    ///
    /// A session that is owed its last handshake message again has that
    /// message handed out. A session that is owed a request for a ratchet
    /// has the request handed out where one was made: the public half of
    /// the exchange that is pending after the sweep, sealed under the key
    /// in use. Nothing is handed out for any other session.
    pub open spec fn spec_owed(pre: Session, now: i64, settings: Settings, post: Session) -> Option<
        Seq<u8>,
    > {
        match pre.spec_duty(now, settings) {
            Duty::Resend => Some(pre.last_message@),
            Duty::Rekey | Duty::RetryRekey => match post.ephemeral {
                Some(pending) => match pre.current.unwrap().spec_seal(
                    pre.remote_id,
                    ProtectedKind::RekeyInit,
                    0,
                    0,
                    1,
                    pending.public@,
                    settings.expire_after_uses,
                ).1 {
                    Ok(datagram) => Some(datagram),
                    Err(_) => None,
                },
                None => None,
            },
            _ => None,
        }
    }

    /// Does what the maintenance sweep owes a session that it keeps, and
    /// returns the datagram to hand out, if there is one. `duty` is what
    /// the session is owed, and `fresh` the key pair for a ratchet that is
    /// to be asked for; without one, no ratchet is asked for this time.
    /// A handshake message that is due again is always handed out, and so
    /// is the request for a ratchet, where a key pair for it is at hand.
    pub fn sweep(&mut self, duty: Duty, fresh: Option<KeyPair>, now: i64, settings: &Settings) -> (owed:
        Option<Vec<u8>>)
        requires
            old(self).wf(),
            settings.wf(),
            duty == old(self).spec_duty(now, *settings),
            !(duty is Close),
            fresh matches Some(pair) ==> pair.wf(),
        ensures
            final(self).wf(),
            final(self).id == old(self).id,
            Self::spec_sweep(*old(self), fresh, now, *settings, *final(self), bytes_view(owed)),
            duty == Duty::Resend || duty == Duty::RetryRekey || (duty == Duty::Rekey && fresh
                is Some) ==> owed is Some,
            duty is Wait || (duty == Duty::Rekey && fresh is None) ==> owed is None,
            Self::spec_serviced(*old(self), now, *settings, *final(self)),
            bytes_view(owed) == Self::spec_owed(*old(self), now, *settings, *final(self)),
    {
        self.reassembler.evict(now, REASSEMBLY_TIMEOUT_MS);
        let ghost tidy = *self;
        let limit = settings.expire_after_uses;
        let owed = match duty {
            Duty::Resend => Some(self.resend(now)),
            Duty::Rekey => match fresh {
                Some(pair) => {
                    let request = self.request_rekey(Some(pair), now, limit);
                    proof {
                        assert(Self::spec_rekey_requested(
                            tidy,
                            Some(pair),
                            now,
                            limit,
                            *self,
                            request,
                        ));
                    }
                    match request {
                        Ok(datagram) => Some(datagram),
                        Err(_) => None,
                    }
                },
                None => None,
            },
            Duty::RetryRekey => {
                let request = self.request_rekey(None, now, limit);
                proof {
                    assert(Self::spec_rekey_requested(tidy, None, now, limit, *self, request));
                }
                match request {
                    Ok(datagram) => Some(datagram),
                    Err(_) => None,
                }
            },
            _ => None,
        };
        proof {
            assert(Self::spec_sweep(*old(self), fresh, now, *settings, *self, bytes_view(owed)));
            assert(bytes_view(owed) == Self::spec_owed(*old(self), now, *settings, *self));
        }
        owed
    }

    /// Whether the session is established.
    pub fn established(&self) -> (yes: bool)
        ensures
            yes == (self.state == SessionState::Established),
    {
        matches!(self.state, SessionState::Established)
    }

    /// The generation and the fingerprint of the key in use, once there is
    /// one.
    pub fn key_info(&self) -> (info: Option<(u64, Vec<u8>)>)
        ensures
            match self.current {
                Some(key) => info matches Some((generation, fingerprint)) && generation
                    == key.generation && fingerprint@ == key.fingerprint@,
                None => info is None,
            },
    {
        match &self.current {
            Some(key) => Some((key.generation, copy_bytes(key.fingerprint.as_slice()))),
            None => None,
        }
    }

    /// Whether `post` and `answer` are what [`Session::answer_rekey`] makes
    /// of a new request that opened to the peer's key `peer`, with which
    /// this party's half of the exchange gives `shared`.
    ///
    /// The key that opened the request has counted it. Where it then seals
    /// the acknowledgement, it becomes the previous generation, and the
    /// current one is derived from its secret and `shared`, one generation
    /// on, with the peer as the side that started the exchange. Where it
    /// cannot, the failure is returned and the session keeps its keys.
    pub open spec fn spec_answered(
        self,
        header: ProtectedHeader,
        sealed: Seq<u8>,
        fresh: KeyPair,
        peer: Seq<u8>,
        shared: Seq<u8>,
        rekey_age: i64,
        now: i64,
        limit: u64,
        post: Session,
        answer: Result<Seq<u8>, Error>,
    ) -> bool {
        match answer {
            Ok(ack) => {
                &&& post == (Session {
                    current: post.current,
                    previous: post.previous,
                    rekey_peer: post.rekey_peer,
                    rekey_ack: post.rekey_ack,
                    failures: 0,
                    ..self
                })
                &&& post.rekey_peer@ == peer
                &&& post.rekey_ack@ == ack
                &&& post.previous matches Some(sealer)
                &&& post.current matches Some(next)
                &&& {
                    let opener = KeyState {
                        send_counter: self.current.unwrap().send_counter,
                        ..sealer
                    };
                    &&& KeyState::spec_counted(self.current.unwrap(), header.counter, opener)
                    &&& opener.spec_seal(
                        self.remote_id,
                        ProtectedKind::RekeyAck,
                        0,
                        0,
                        1,
                        fresh.public@,
                        limit,
                    ) == (sealer, Ok::<_, Error>(ack))
                    &&& next.spec_derived(
                        spec_ratchet_key(sealer.ratchet_key@, shared),
                        (sealer.generation + 1) as u64,
                        self.role,
                        false,
                        now,
                        rekey_age,
                    )
                }
            },
            Err(e) => {
                let opened = Session { state: self.state, ..post };
                &&& Self::spec_opened(self, header, sealed, limit, opened)
                &&& post == opened.spec_flagged(e)
                &&& opened.current.unwrap().spec_seal(
                    self.remote_id,
                    ProtectedKind::RekeyAck,
                    0,
                    0,
                    1,
                    fresh.public@,
                    limit,
                ).1 == Err::<Seq<u8>, _>(e)
            },
        }
    }
}

/// The number of datagrams in a row whose tag does not verify at which a
/// session is given up.
pub const FAILURE_LIMIT: u32 = 16;

/// What the maintenance sweep owes a session.
#[derive(Clone, Copy, Debug, PartialEq, Eq, Structural)]
pub enum Duty {
    /// Nothing before this many milliseconds have passed.
    Wait(i64),
    /// The last handshake message is to be sent again.
    Resend,
    /// A ratchet is to be asked for.
    Rekey,
    /// The pending request for a ratchet is to be made again.
    RetryRekey,
    /// The session is to be closed, for this reason.
    Close(Error),
}

/// Which of the two key generations that a session holds.
#[derive(Clone, Copy, Debug, PartialEq, Eq, Structural)]
pub enum KeySlot {
    /// The generation in use.
    Current,
    /// The generation before it.
    Previous,
}

} // verus!

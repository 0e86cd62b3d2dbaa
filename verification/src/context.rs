//! The context: the session table of one local identity, with the entry
//! points that open sessions, dispatch inbound datagrams to them, send
//! application messages, and sweep the table for what has fallen due.

use vstd::prelude::*;

use crate::error::Error;
use crate::fragment::byte_strings;
use crate::handshake::spec_responder_master;
use crate::handshake::spec_response_tag;
use crate::handshake::spec_transcript;
use crate::keys::Role;
use crate::primitives::bytes_equal;
use crate::primitives::copy_bytes;
use crate::primitives::os_random;
use crate::primitives::spec_agree;
use crate::primitives::KeyPair;
use crate::primitives::PUBLIC_KEY_SIZE;
use crate::clock::sooner;
use crate::session::Duty;
use crate::session::RemoteIdentity;
use crate::session::Session;
use crate::session::SessionState;
use crate::settings::Settings;
use crate::settings::MAX_SESSIONS;
use crate::wire::parse;
use crate::wire::read_u64;
use crate::wire::spec_parse;
use crate::wire::Packet;
use crate::wire::PacketView;
use crate::wire::ProtectedKind;
use crate::wire::spec_encode_init;
use crate::wire::spec_encode_response;
use crate::wire::ProtectedHeader;
use crate::wire::HANDSHAKE_MARKER;

verus! {

/// What the embedding application contributes to a handshake.
pub trait ApplicationLayer {
    /// The identity resolver: given the long-term public key that an
    /// initiator offered, either the peer's key, pre-shared secret and
    /// application data, or `None` to turn the peer away.
    fn resolve(&self, remote_static_public: &[u8]) -> Option<RemoteIdentity>;
}

/// The position of the first session at or after `from` that has the given
/// identifier; the length of the table where there is none.
pub open spec fn spec_index_of(sessions: Seq<Session>, id: u64, from: int) -> int
    decreases sessions.len() - from,
{
    if from < 0 || from >= sessions.len() {
        sessions.len() as int
    } else if sessions[from].id == id {
        from
    } else {
        spec_index_of(sessions, id, from + 1)
    }
}

/// The position found is the one session with that identifier, and a table
/// without one has no such session.
pub proof fn lemma_index_of(sessions: Seq<Session>, id: u64, from: int)
    requires
        0 <= from <= sessions.len(),
    ensures
        from <= spec_index_of(sessions, id, from) <= sessions.len(),
        spec_index_of(sessions, id, from) < sessions.len() ==> sessions[spec_index_of(
            sessions,
            id,
            from,
        )].id == id,
        forall|k: int|
            from <= k < spec_index_of(sessions, id, from) ==> (#[trigger] sessions[k]).id != id,
    decreases sessions.len() - from,
{
    if from < sessions.len() && sessions[from].id != id {
        lemma_index_of(sessions, id, from + 1);
    }
}

/// The session table of one local identity.
pub struct Context {
    /// The long-term key pair of the local identity.
    pub local: KeyPair,
    /// The limits and intervals that the application chose.
    pub settings: Settings,
    /// The sessions, each under an identifier of its own.
    pub sessions: Vec<Session>,
    /// The identifier that the next session gets.
    pub next_id: u64,
}

impl Context {
    /// A context is well formed when its parts are, it holds no more
    /// sessions than it may, and no two sessions share an identifier: each
    /// has one that was handed out before the next one to hand out.
    pub open spec fn wf(&self) -> bool {
        &&& self.local.wf()
        &&& self.settings.wf()
        &&& self.sessions@.len() <= MAX_SESSIONS
        &&& self.next_id != HANDSHAKE_MARKER
        &&& forall|i: int|
            0 <= i < self.sessions@.len() ==> (#[trigger] self.sessions@[i]).wf()
                && self.sessions@[i].id < self.next_id
        &&& forall|i: int, j: int|
            0 <= i < j < self.sessions@.len() ==> (#[trigger] self.sessions@[i]).id
                != (#[trigger] self.sessions@[j]).id
    }

    /// The position of the session with the given identifier, if there is
    /// one.
    pub open spec fn spec_position(&self, id: u64) -> Option<int> {
        let at = spec_index_of(self.sessions@, id, 0);
        if at < self.sessions@.len() {
            Some(at)
        } else {
            None
        }
    }

    /// A context without sessions.
    pub fn new(local: KeyPair, settings: Settings) -> (context: Context)
        requires
            local.wf(),
            settings.wf(),
        ensures
            context.wf(),
            context.local == local,
            context.settings == settings,
            context.sessions@.len() == 0,
            context.next_id == 1,
    {
        Context { local, settings, sessions: Vec::new(), next_id: 1 }
    }

    /// The position of the session with the given identifier, if there is
    /// one.
    pub fn position(&self, id: u64) -> (at: Option<usize>)
        ensures
            match at {
                Some(i) => self.spec_position(id) == Some(i as int) && i < self.sessions@.len()
                    && self.sessions@[i as int].id == id,
                None => self.spec_position(id) is None && forall|k: int|
                    0 <= k < self.sessions@.len() ==> (#[trigger] self.sessions@[k]).id != id,
            },
    {
        let mut i: usize = 0;
        while i < self.sessions.len()
            invariant
                i <= self.sessions@.len(),
                spec_index_of(self.sessions@, id, 0) == spec_index_of(self.sessions@, id, i as int),
                forall|k: int| 0 <= k < i ==> (#[trigger] self.sessions@[k]).id != id,
            decreases self.sessions@.len() - i,
        {
            if self.sessions[i].id == id {
                return Some(i);
            }
            i += 1;
        }
        None
    }

    /// The number of sessions in the table.
    pub fn session_count(&self) -> (n: usize)
        ensures
            n == self.sessions@.len(),
    {
        self.sessions.len()
    }

    /// Whether the session with the given identifier is established.
    pub fn established(&self, id: u64) -> (yes: bool)
        ensures
            yes == match self.spec_position(id) {
                Some(i) => self.sessions@[i].state == SessionState::Established,
                None => false,
            },
    {
        match self.position(id) {
            Some(i) => self.sessions[i].established(),
            None => false,
        }
    }

    /// The generation and the fingerprint of the key that the session with
    /// the given identifier uses, once it has one.
    pub fn key_info(&self, id: u64) -> (info: Option<(u64, Vec<u8>)>)
        ensures
            match self.spec_position(id) {
                Some(i) => match self.sessions@[i].current {
                    Some(key) => info matches Some((generation, fingerprint)) && generation
                        == key.generation && fingerprint@ == key.fingerprint@,
                    None => info is None,
                },
                None => info is None,
            },
    {
        match self.position(id) {
            Some(i) => self.sessions[i].key_info(),
            None => None,
        }
    }

    /// Whether the table has no room for another session: it is full, or
    /// out of identifiers.
    pub open spec fn spec_full(&self) -> bool {
        self.sessions@.len() >= MAX_SESSIONS || self.next_id == u64::MAX
    }

    /// Why [`Context::open_with`] opens no session, if it does not: the
    /// table has no room, or the peer's key is no point of the curve.
    pub open spec fn spec_open_refusal(&self, remote_static: Seq<u8>, ephemeral: KeyPair) -> Option<
        Error,
    > {
        if self.spec_full() {
            Some(Error::ResourceExhausted)
        } else {
            match spec_agree(ephemeral.secret@, remote_static) {
                Ok(_) => None,
                Err(e) => Some(e),
            }
        }
    }

    /// Opens a session towards a peer with the given ephemeral key pair:
    /// allocates the next session identifier, adds the session to the
    /// table in state `SentInit`, and returns the identifier with the
    /// initiation to send.
    pub fn open_with(
        &mut self,
        remote_static: &[u8],
        psk: &[u8],
        application_data: &[u8],
        ephemeral: KeyPair,
        now: i64,
    ) -> (opened: Result<(u64, Vec<u8>), Error>)
        requires
            old(self).wf(),
            ephemeral.wf(),
        ensures
            final(self).wf(),
            match old(self).spec_open_refusal(remote_static@, ephemeral) {
                Some(e) => opened matches Err(f) && f == e && *final(self) == *old(self),
                None => {
                    &&& opened matches Ok((id, datagram))
                    &&& id == old(self).next_id
                    &&& datagram@ == spec_encode_init(id, ephemeral.public@, old(self).local.public@)
                    &&& final(self).sessions@.len() == old(self).sessions@.len() + 1
                    &&& final(self).sessions@.drop_last() == old(self).sessions@
                    &&& final(self).sessions@.last().spec_initiated(
                        id,
                        remote_static@,
                        psk@,
                        application_data@,
                        ephemeral,
                        datagram@,
                        now,
                    )
                    &&& *final(self) == (Context {
                        sessions: final(self).sessions,
                        next_id: (id + 1) as u64,
                        ..*old(self)
                    })
                },
            },
    {
        if self.sessions.len() >= MAX_SESSIONS || self.next_id == u64::MAX {
            return Err(Error::ResourceExhausted);
        }
        let id = self.next_id;
        match Session::initiate(
            id,
            self.local.public.as_slice(),
            remote_static,
            psk,
            application_data,
            ephemeral,
            now,
        ) {
            Ok((session, datagram)) => {
                let ghost before = self.sessions@;
                self.sessions.push(session);
                self.next_id = id + 1;
                assert(self.sessions@.drop_last() =~= before);
                Ok((id, datagram))
            },
            Err(e) => Err(e),
        }
    }

    /// Opens a session towards the peer with the long-term public key
    /// `remote_static`, with an ephemeral key drawn for it. On success the
    /// table has one more session, in state `SentInit`, and the result is
    /// its identifier with the initiation to send.
    ///
    /// Fails with `ResourceExhausted` where the table has no room or the
    /// entropy source gives nothing, and with `InvalidKeyEncoding` where
    /// the peer's key is no point of the curve or the bytes drawn are no
    /// key; a failure changes nothing.
    pub fn open(&mut self, remote_static: &[u8], psk: &[u8], application_data: &[u8], now: i64) -> (opened:
        Result<(u64, Vec<u8>), Error>)
        requires
            old(self).wf(),
        ensures
            final(self).wf(),
            old(self).spec_full() ==> (opened matches Err(e) && e == Error::ResourceExhausted),
            !old(self).spec_full() && remote_static@.len() != PUBLIC_KEY_SIZE ==> (opened matches Err(
                e,
            ) && e == Error::InvalidKeyEncoding),
            opened is Err ==> *final(self) == *old(self),
            opened matches Ok((id, datagram)) ==> {
                &&& id == old(self).next_id
                &&& *final(self) == (Context {
                    sessions: final(self).sessions,
                    next_id: (id + 1) as u64,
                    ..*old(self)
                })
                &&& final(self).sessions@.len() == old(self).sessions@.len() + 1
                &&& final(self).sessions@.drop_last() == old(self).sessions@
                &&& exists|ephemeral: KeyPair|
                    {
                        &&& ephemeral.wf()
                        &&& datagram@ == spec_encode_init(
                            id,
                            ephemeral.public@,
                            old(self).local.public@,
                        )
                        &&& #[trigger] final(self).sessions@.last().spec_initiated(
                            id,
                            remote_static@,
                            psk@,
                            application_data@,
                            ephemeral,
                            datagram@,
                            now,
                        )
                    }
            },
    {
        if self.sessions.len() >= MAX_SESSIONS || self.next_id == u64::MAX {
            return Err(Error::ResourceExhausted);
        }
        if remote_static.len() != PUBLIC_KEY_SIZE {
            return Err(Error::InvalidKeyEncoding);
        }
        let ephemeral = match KeyPair::generate() {
            Ok(pair) => pair,
            Err(e) => {
                return Err(e);
            },
        };
        let opened = self.open_with(remote_static, psk, application_data, ephemeral, now);
        proof {
            if opened is Ok {
                assert(self.sessions@.last().spec_initiated(
                    opened->Ok_0.0,
                    remote_static@,
                    psk@,
                    application_data@,
                    ephemeral,
                    opened->Ok_0.1@,
                    now,
                ));
            }
        }
        opened
    }

    /// Sends an application message over the session with the given
    /// identifier, as [`Session::send`] does. Fails with `SessionExpired`
    /// where the table has no such session.
    pub fn send(&mut self, id: u64, message: &[u8]) -> (sent: Result<Vec<Vec<u8>>, Error>)
        requires
            old(self).wf(),
        ensures
            final(self).wf(),
            match old(self).spec_position(id) {
                None => sent matches Err(e) && e == Error::SessionExpired && *final(self) == *old(
                    self,
                ),
                Some(i) => {
                    &&& *final(self) == (Context { sessions: final(self).sessions, ..*old(self) })
                    &&& final(self).sessions@ == old(self).sessions@.update(
                        i,
                        final(self).sessions@[i],
                    )
                    &&& Session::spec_sent(
                        old(self).sessions@[i],
                        message@,
                        old(self).settings,
                        final(self).sessions@[i],
                        sent,
                    )
                },
            },
    {
        let at = match self.position(id) {
            Some(i) => i,
            None => {
                return Err(Error::SessionExpired);
            },
        };
        let settings = self.settings;
        let ghost before = self.sessions@;
        let session = &mut self.sessions[at];
        let sent = session.send(message, &settings);
        proof {
            assert(self.sessions@ =~= before.update(at as int, self.sessions@[at as int]));
        }
        sent
    }
}

/// What [`Context::receive`] made of a datagram.
#[derive(Debug)]
pub enum ReceiveResult {
    /// A protocol packet was consumed; there is nothing for the
    /// application. The identifier is that of the session it belonged to.
    OkConsumed(Option<u64>),
    /// An application message is complete: the session and the message.
    OkData(u64, Vec<u8>),
    /// A handshake has just completed on the responder's side: the new
    /// session and the application data that the resolver attached to it.
    OkNewSession(u64, Vec<u8>),
    /// The resolver turned the peer away. No session was created.
    Rejected,
}

/// The outcome of [`Context::receive`] with the datagrams to send in reply.
#[derive(Debug)]
pub struct Received {
    /// What the datagram was.
    pub result: ReceiveResult,
    /// The datagrams to send to the peer, in order.
    pub replies: Vec<Vec<u8>>,
}

/// Whether `post` is `pre` with nothing changed but the session at
/// position `i`.
pub open spec fn spec_touched(pre: Context, i: int, post: Context) -> bool {
    &&& post == (Context { sessions: post.sessions, ..pre })
    &&& post.sessions@ == pre.sessions@.update(i, post.sessions@[i])
}

/// The one reply of an outcome, as the session made it.
pub open spec fn spec_reply(received: Result<Received, Error>) -> Result<Vec<u8>, Error> {
    match received {
        Ok(r) => Ok(r.replies@[0]),
        Err(e) => Err(e),
    }
}

/// What the session delivered, as an outcome reports it.
pub open spec fn spec_delivery(received: Result<Received, Error>) -> Result<Option<Vec<u8>>, Error> {
    match received {
        Ok(r) => match r.result {
            ReceiveResult::OkData(_, message) => Ok(Some(message)),
            _ => Ok(None),
        },
        Err(e) => Err(e),
    }
}

/// Whether an outcome reports a consumed protocol packet of session `id`,
/// with `replies` datagrams to send.
pub open spec fn spec_consumed(received: Result<Received, Error>, id: u64, replies: nat) -> bool {
    received matches Ok(r) ==> r.result == ReceiveResult::OkConsumed(Some(id)) && r.replies@.len()
        == replies
}

impl Context {
    /// Whether `post` and `received` are what [`Context::handle_confirm`]
    /// makes of `pre` and a confirmation.
    ///
    /// The confirmation goes to the session that it names: `SessionExpired`
    /// where there is none or it has expired, and also where its key has
    /// reached the usage ceiling, which expires it. A session that awaits it is
    /// established where the tag is the one awaited, and the outcome
    /// reports it as new, with the application data that the resolver
    /// attached; `AuthenticationFailed` where it is not. A responder that
    /// is established already takes the same confirmation again, and it
    /// changes nothing. Anything else is malformed.
    pub open spec fn spec_confirm_handled(
        pre: Context,
        recipient_id: u64,
        tag: Seq<u8>,
        post: Context,
        received: Result<Received, Error>,
    ) -> bool {
        match pre.spec_position(recipient_id) {
            None => received matches Err(e) && e == Error::SessionExpired && post == pre,
            Some(i) => {
                let session = pre.sessions@[i];
                if session.state == SessionState::Expired {
                    received matches Err(e) && e == Error::SessionExpired && post == pre
                } else if session.spec_worn(pre.settings.expire_after_uses) {
                    &&& received matches Err(e) && e == Error::SessionExpired
                    &&& spec_touched(pre, i, post)
                    &&& post.sessions@[i] == (Session { state: SessionState::Expired, ..session })
                } else if session.state == SessionState::SentResponse {
                    if tag == session.expected@ {
                        &&& spec_touched(pre, i, post)
                        &&& post.sessions@[i] == (Session {
                            state: SessionState::Established,
                            ..session
                        })
                        &&& received matches Ok(r)
                        &&& r.replies@.len() == 0
                        &&& r.result matches ReceiveResult::OkNewSession(id, data)
                        &&& id == recipient_id
                        &&& data@ == session.application_data@
                    } else {
                        received matches Err(e) && e == Error::AuthenticationFailed && post == pre
                    }
                } else if session.state == SessionState::Established && session.role
                    == Role::Responder && tag == session.expected@ {
                    &&& received is Ok
                    &&& spec_consumed(received, recipient_id, 0)
                    &&& post == pre
                } else {
                    received matches Err(e) && e == Error::MalformedPacket && post == pre
                }
            },
        }
    }

    /// Takes in a confirmation of a handshake.
    pub fn handle_confirm(&mut self, recipient_id: u64, tag: &[u8]) -> (received: Result<
        Received,
        Error,
    >)
        requires
            old(self).wf(),
        ensures
            final(self).wf(),
            Self::spec_confirm_handled(*old(self), recipient_id, tag@, *final(self), received),
    {
        let at = match self.position(recipient_id) {
            Some(i) => i,
            None => {
                return Err(Error::SessionExpired);
            },
        };
        let ghost before = self.sessions@;
        match self.sessions[at].state {
            SessionState::Expired => Err(Error::SessionExpired),
            SessionState::SentResponse => {
                if !bytes_equal(tag, self.sessions[at].expected.as_slice()) {
                    return Err(Error::AuthenticationFailed);
                }
                let session = &mut self.sessions[at];
                let confirmed = session.confirm(tag);
                let data = copy_bytes(session.application_data.as_slice());
                proof {
                    assert(confirmed is Ok);
                    assert(self.sessions@ =~= before.update(at as int, self.sessions@[at as int]));
                }
                Ok(
                    Received {
                        result: ReceiveResult::OkNewSession(recipient_id, data),
                        replies: Vec::new(),
                    },
                )
            },
            SessionState::Established => {
                if self.sessions[at].worn(self.settings.expire_after_uses) {
                    let session = &mut self.sessions[at];
                    session.expire();
                    proof {
                        assert(self.sessions@ =~= before.update(
                            at as int,
                            self.sessions@[at as int],
                        ));
                    }
                    return Err(Error::SessionExpired);
                }
                if matches!(self.sessions[at].role, Role::Responder) && bytes_equal(
                    tag,
                    self.sessions[at].expected.as_slice(),
                ) {
                    Ok(
                        Received {
                            result: ReceiveResult::OkConsumed(Some(recipient_id)),
                            replies: Vec::new(),
                        },
                    )
                } else {
                    Err(Error::MalformedPacket)
                }
            },
            _ => Err(Error::MalformedPacket),
        }
    }

    /// Whether `post` and `received` are what [`Context::handle_data`]
    /// makes of `pre` and a data fragment: `SessionExpired` where the
    /// table has no session of that identifier, and else what
    /// [`Session::receive_data`] makes of it, a complete message being
    /// reported with its session.
    pub open spec fn spec_data_handled(
        pre: Context,
        header: ProtectedHeader,
        sealed: Seq<u8>,
        now: i64,
        post: Context,
        received: Result<Received, Error>,
    ) -> bool {
        match pre.spec_position(header.recipient_id) {
            None => received matches Err(e) && e == Error::SessionExpired && post == pre,
            Some(i) => {
                &&& spec_touched(pre, i, post)
                &&& Session::spec_received_data(
                    pre.sessions@[i],
                    header,
                    sealed,
                    now,
                    pre.settings.expire_after_uses,
                    post.sessions@[i],
                    spec_delivery(received),
                )
                &&& received matches Ok(r) ==> r.replies@.len() == 0 && match r.result {
                    ReceiveResult::OkData(id, _) => id == header.recipient_id,
                    other => other == ReceiveResult::OkConsumed(Some(header.recipient_id)),
                }
            },
        }
    }

    /// Takes in one fragment of an application message.
    pub fn handle_data(&mut self, header: &ProtectedHeader, sealed: &[u8], now: i64) -> (received:
        Result<Received, Error>)
        requires
            old(self).wf(),
            header.wf(),
        ensures
            final(self).wf(),
            Self::spec_data_handled(*old(self), *header, sealed@, now, *final(self), received),
    {
        let at = match self.position(header.recipient_id) {
            Some(i) => i,
            None => {
                return Err(Error::SessionExpired);
            },
        };
        let limit = self.settings.expire_after_uses;
        let ghost before = self.sessions@;
        let session = &mut self.sessions[at];
        let delivered = session.receive_data(header, sealed, now, limit);
        proof {
            assert(self.sessions@ =~= before.update(at as int, self.sessions@[at as int]));
        }
        match delivered {
            Ok(Some(message)) => Ok(
                Received {
                    result: ReceiveResult::OkData(header.recipient_id, message),
                    replies: Vec::new(),
                },
            ),
            Ok(None) => Ok(
                Received {
                    result: ReceiveResult::OkConsumed(Some(header.recipient_id)),
                    replies: Vec::new(),
                },
            ),
            Err(e) => Err(e),
        }
    }
}

impl Context {
    /// Whether `post` and `received` are what [`Context::handle_response`]
    /// makes of `pre` and a response.
    ///
    /// The response goes to the session that it names: `SessionExpired`
    /// where there is none or it has expired, and also where its key has
    /// reached the usage ceiling, which expires it. A session that awaits it
    /// completes the handshake as [`Session::complete`] says, and the
    /// reply is its confirmation. An initiator that is established
    /// already answers the response that it accepted with the same
    /// confirmation again, and it changes nothing. Anything else is
    /// malformed.
    pub open spec fn spec_response_handled(
        pre: Context,
        recipient_id: u64,
        sender_id: u64,
        ephemeral: Seq<u8>,
        tag: Seq<u8>,
        datagram: Seq<u8>,
        rekey_age: i64,
        now: i64,
        post: Context,
        received: Result<Received, Error>,
    ) -> bool {
        match pre.spec_position(recipient_id) {
            None => received matches Err(e) && e == Error::SessionExpired && post == pre,
            Some(i) => {
                let session = pre.sessions@[i];
                if session.state == SessionState::Expired {
                    received matches Err(e) && e == Error::SessionExpired && post == pre
                } else if session.spec_worn(pre.settings.expire_after_uses) {
                    &&& received matches Err(e) && e == Error::SessionExpired
                    &&& spec_touched(pre, i, post)
                    &&& post.sessions@[i] == (Session { state: SessionState::Expired, ..session })
                } else if session.state == SessionState::SentInit {
                    &&& spec_touched(pre, i, post)
                    &&& Session::spec_completed(
                        session,
                        pre.local,
                        sender_id,
                        ephemeral,
                        tag,
                        datagram,
                        rekey_age,
                        now,
                        post.sessions@[i],
                        spec_reply(received),
                    )
                    &&& spec_consumed(received, recipient_id, 1)
                } else if session.state == SessionState::Established && session.role
                    == Role::Initiator && datagram == session.expected@ {
                    &&& received matches Ok(r)
                    &&& spec_consumed(received, recipient_id, 1)
                    &&& r.replies@[0]@ == session.last_message@
                    &&& post == pre
                } else {
                    received matches Err(e) && e == Error::MalformedPacket && post == pre
                }
            },
        }
    }

    /// Takes in a response to an initiation. `datagram` is the response as
    /// it went over the wire, and `rekey_age` the age at which the new key
    /// will be due for a ratchet.
    pub fn handle_response(
        &mut self,
        recipient_id: u64,
        sender_id: u64,
        ephemeral: &[u8],
        tag: &[u8],
        datagram: &[u8],
        rekey_age: i64,
        now: i64,
    ) -> (received: Result<Received, Error>)
        requires
            old(self).wf(),
            sender_id != HANDSHAKE_MARKER,
        ensures
            final(self).wf(),
            Self::spec_response_handled(
                *old(self),
                recipient_id,
                sender_id,
                ephemeral@,
                tag@,
                datagram@,
                rekey_age,
                now,
                *final(self),
                received,
            ),
    {
        let at = match self.position(recipient_id) {
            Some(i) => i,
            None => {
                return Err(Error::SessionExpired);
            },
        };
        let ghost before = self.sessions@;
        match self.sessions[at].state {
            SessionState::Expired => Err(Error::SessionExpired),
            SessionState::SentInit => {
                let session = &mut self.sessions[at];
                let completed = session.complete(
                    &self.local,
                    sender_id,
                    ephemeral,
                    tag,
                    datagram,
                    rekey_age,
                    now,
                );
                proof {
                    assert(self.sessions@ =~= before.update(at as int, self.sessions@[at as int]));
                }
                match completed {
                    Ok(confirmation) => Ok(single_reply(recipient_id, confirmation)),
                    Err(e) => Err(e),
                }
            },
            SessionState::Established => {
                if self.sessions[at].worn(self.settings.expire_after_uses) {
                    let session = &mut self.sessions[at];
                    session.expire();
                    proof {
                        assert(self.sessions@ =~= before.update(
                            at as int,
                            self.sessions@[at as int],
                        ));
                    }
                    return Err(Error::SessionExpired);
                }
                if matches!(self.sessions[at].role, Role::Initiator) && bytes_equal(
                    datagram,
                    self.sessions[at].expected.as_slice(),
                ) {
                    Ok(
                        single_reply(
                            recipient_id,
                            copy_bytes(self.sessions[at].last_message.as_slice()),
                        ),
                    )
                } else {
                    Err(Error::MalformedPacket)
                }
            },
            _ => Err(Error::MalformedPacket),
        }
    }

    /// Whether `post` and `received` are what [`Context::handle_rekey_init`]
    /// makes of `pre` and a request for a ratchet: `SessionExpired` where
    /// the table has no session of that identifier, and else what
    /// [`Session::answer_rekey`] makes of it, the reply being the
    /// acknowledgement.
    pub open spec fn spec_rekey_init_handled(
        pre: Context,
        header: ProtectedHeader,
        sealed: Seq<u8>,
        fresh: KeyPair,
        rekey_age: i64,
        now: i64,
        post: Context,
        received: Result<Received, Error>,
    ) -> bool {
        match pre.spec_position(header.recipient_id) {
            None => received matches Err(e) && e == Error::SessionExpired && post == pre,
            Some(i) => {
                &&& spec_touched(pre, i, post)
                &&& Session::spec_rekey_answered(
                    pre.sessions@[i],
                    header,
                    sealed,
                    fresh,
                    rekey_age,
                    now,
                    pre.settings.expire_after_uses,
                    post.sessions@[i],
                    spec_reply(received),
                )
                &&& spec_consumed(received, header.recipient_id, 1)
            },
        }
    }

    /// Takes in a request for a ratchet, with the key pair to answer it
    /// with.
    pub fn handle_rekey_init(
        &mut self,
        header: &ProtectedHeader,
        sealed: &[u8],
        fresh: KeyPair,
        rekey_age: i64,
        now: i64,
    ) -> (received: Result<Received, Error>)
        requires
            old(self).wf(),
            fresh.wf(),
        ensures
            final(self).wf(),
            Self::spec_rekey_init_handled(
                *old(self),
                *header,
                sealed@,
                fresh,
                rekey_age,
                now,
                *final(self),
                received,
            ),
    {
        let at = match self.position(header.recipient_id) {
            Some(i) => i,
            None => {
                return Err(Error::SessionExpired);
            },
        };
        let limit = self.settings.expire_after_uses;
        let ghost before = self.sessions@;
        let session = &mut self.sessions[at];
        let answer = session.answer_rekey(header, sealed, fresh, rekey_age, now, limit);
        proof {
            assert(self.sessions@ =~= before.update(at as int, self.sessions@[at as int]));
        }
        match answer {
            Ok(ack) => Ok(single_reply(header.recipient_id, ack)),
            Err(e) => Err(e),
        }
    }

    /// Whether `post` and `received` are what [`Context::handle_rekey_ack`]
    /// makes of `pre` and an acknowledgement of a ratchet: `SessionExpired`
    /// where the table has no session of that identifier, and else what
    /// [`Session::finish_rekey`] makes of it.
    pub open spec fn spec_rekey_ack_handled(
        pre: Context,
        header: ProtectedHeader,
        sealed: Seq<u8>,
        rekey_age: i64,
        now: i64,
        post: Context,
        received: Result<Received, Error>,
    ) -> bool {
        match pre.spec_position(header.recipient_id) {
            None => received matches Err(e) && e == Error::SessionExpired && post == pre,
            Some(i) => {
                &&& spec_touched(pre, i, post)
                &&& Session::spec_rekey_finished(
                    pre.sessions@[i],
                    header,
                    sealed,
                    rekey_age,
                    now,
                    pre.settings.expire_after_uses,
                    post.sessions@[i],
                    match received {
                        Ok(_) => Ok(()),
                        Err(e) => Err(e),
                    },
                )
                &&& spec_consumed(received, header.recipient_id, 0)
            },
        }
    }

    /// Takes in an acknowledgement of a ratchet.
    pub fn handle_rekey_ack(
        &mut self,
        header: &ProtectedHeader,
        sealed: &[u8],
        rekey_age: i64,
        now: i64,
    ) -> (received: Result<Received, Error>)
        requires
            old(self).wf(),
        ensures
            final(self).wf(),
            Self::spec_rekey_ack_handled(
                *old(self),
                *header,
                sealed@,
                rekey_age,
                now,
                *final(self),
                received,
            ),
    {
        let at = match self.position(header.recipient_id) {
            Some(i) => i,
            None => {
                return Err(Error::SessionExpired);
            },
        };
        let limit = self.settings.expire_after_uses;
        let ghost before = self.sessions@;
        let session = &mut self.sessions[at];
        let finished = session.finish_rekey(header, sealed, rekey_age, now, limit);
        proof {
            assert(self.sessions@ =~= before.update(at as int, self.sessions@[at as int]));
        }
        match finished {
            Ok(()) => Ok(
                Received {
                    result: ReceiveResult::OkConsumed(Some(header.recipient_id)),
                    replies: Vec::new(),
                },
            ),
            Err(e) => Err(e),
        }
    }

    /// Whether `post` and `received` are what [`Context::handle_init`]
    /// makes of `pre` and an initiation from a peer that the resolver
    /// admitted as `identity`.
    ///
    /// It fails with `ResourceExhausted` where the table is full or out of
    /// identifiers, and with `InvalidKeyEncoding` where one of the
    /// initiator's keys is no point of the curve; a failure changes
    /// nothing. Otherwise the table has one more session, under the next
    /// identifier, as [`Session::respond`] creates it, and the reply is
    /// the response.
    pub open spec fn spec_init_handled(
        pre: Context,
        sender_id: u64,
        initiator_ephemeral: Seq<u8>,
        datagram: Seq<u8>,
        identity: RemoteIdentity,
        ephemeral: KeyPair,
        rekey_age: i64,
        now: i64,
        post: Context,
        received: Result<Received, Error>,
    ) -> bool {
        if pre.sessions@.len() >= MAX_SESSIONS || pre.next_id == u64::MAX {
            received matches Err(e) && e == Error::ResourceExhausted && post == pre
        } else {
            match spec_responder_master(
                pre.local.secret@,
                ephemeral.secret@,
                identity.public_key@,
                initiator_ephemeral,
                identity.psk@,
                spec_transcript(datagram, sender_id, pre.next_id, ephemeral.public@),
            ) {
                Err(e) => received matches Err(f) && f == e && post == pre,
                Ok(master) => {
                    &&& received matches Ok(r)
                    &&& spec_consumed(received, pre.next_id, 1)
                    &&& r.replies@[0]@ == spec_encode_response(
                        sender_id,
                        pre.next_id,
                        ephemeral.public@,
                        spec_response_tag(master),
                    )
                    &&& post == (Context {
                        sessions: post.sessions,
                        next_id: (pre.next_id + 1) as u64,
                        ..pre
                    })
                    &&& post.sessions@.len() == pre.sessions@.len() + 1
                    &&& post.sessions@.drop_last() == pre.sessions@
                    &&& post.sessions@.last().spec_responded(
                        pre.next_id,
                        sender_id,
                        datagram,
                        identity,
                        master,
                        r.replies@[0]@,
                        rekey_age,
                        now,
                    )
                },
            }
        }
    }

    /// Takes in an initiation from a peer that the resolver admitted, with
    /// the ephemeral key pair to answer it with. `datagram` is the
    /// initiation as it went over the wire.
    pub fn handle_init(
        &mut self,
        sender_id: u64,
        initiator_ephemeral: &[u8],
        datagram: &[u8],
        identity: RemoteIdentity,
        ephemeral: KeyPair,
        rekey_age: i64,
        now: i64,
    ) -> (received: Result<Received, Error>)
        requires
            old(self).wf(),
            sender_id != HANDSHAKE_MARKER,
            ephemeral.wf(),
        ensures
            final(self).wf(),
            Self::spec_init_handled(
                *old(self),
                sender_id,
                initiator_ephemeral@,
                datagram@,
                identity,
                ephemeral,
                rekey_age,
                now,
                *final(self),
                received,
            ),
    {
        if self.sessions.len() >= MAX_SESSIONS || self.next_id == u64::MAX {
            return Err(Error::ResourceExhausted);
        }
        let id = self.next_id;
        match Session::respond(
            id,
            &self.local,
            sender_id,
            initiator_ephemeral,
            datagram,
            identity,
            ephemeral,
            rekey_age,
            now,
        ) {
            Ok((session, response)) => {
                let ghost before = self.sessions@;
                self.sessions.push(session);
                self.next_id = id + 1;
                assert(self.sessions@.drop_last() =~= before);
                Ok(single_reply(id, response))
            },
            Err(e) => Err(e),
        }
    }

    /// The position of the session that answered this very initiation
    /// before and still awaits the confirmation, if there is one.
    pub fn repeated_init(&self, datagram: &[u8]) -> (at: Option<usize>)
        ensures
            match at {
                Some(i) => {
                    &&& i < self.sessions@.len()
                    &&& self.sessions@[i as int].state == SessionState::SentResponse
                    &&& self.sessions@[i as int].init_bytes@ == datagram@
                },
                None => forall|k: int|
                    0 <= k < self.sessions@.len() ==> !((#[trigger] self.sessions@[k]).state
                        == SessionState::SentResponse && self.sessions@[k].init_bytes@
                        == datagram@),
            },
    {
        let mut i: usize = 0;
        while i < self.sessions.len()
            invariant
                i <= self.sessions@.len(),
                forall|k: int|
                    0 <= k < i ==> !((#[trigger] self.sessions@[k]).state
                        == SessionState::SentResponse && self.sessions@[k].init_bytes@
                        == datagram@),
            decreases self.sessions@.len() - i,
        {
            if matches!(self.sessions[i].state, SessionState::SentResponse) && bytes_equal(
                self.sessions[i].init_bytes.as_slice(),
                datagram,
            ) {
                return Some(i);
            }
            i += 1;
        }
        None
    }
}

/// A session that the maintenance sweep closed, and why.
#[derive(Clone, Copy, Debug, PartialEq, Eq, Structural)]
pub struct Closed {
    /// The identifier that the session had.
    pub id: u64,
    /// `NegotiationTimedOut` for a handshake that took too long,
    /// `SessionExpired` for a session whose key reached the usage ceiling.
    pub reason: Error,
}

/// What [`Context::service`] did and when it wants to be called again.
#[derive(Debug)]
pub struct ServiceReport {
    /// The number of milliseconds after which the next sweep is due.
    pub next_service_ms: i64,
    /// The datagrams to send, in the order of the sessions they belong to.
    pub datagrams: Vec<Vec<u8>>,
    /// The sessions that were closed and removed from the table.
    pub closed: Vec<Closed>,
}

/// Whether the maintenance sweep closes a session at time `now`.
pub open spec fn spec_closing(session: Session, now: i64, settings: Settings) -> bool {
    session.spec_duty(now, settings) is Close
}

/// The record of a session that the sweep closes.
pub open spec fn spec_closed(session: Session, now: i64, settings: Settings) -> Closed {
    Closed { id: session.id, reason: session.spec_duty(now, settings)->Close_0 }
}

/// The sessions that the sweep closes at time `now`, in table order.
pub open spec fn spec_closures(sessions: Seq<Session>, now: i64, settings: Settings) -> Seq<Closed> {
    sessions.filter(|s: Session| spec_closing(s, now, settings)).map_values(
        |s: Session| spec_closed(s, now, settings),
    )
}

/// The identifiers of the sessions that the sweep keeps, in table order.
pub open spec fn spec_survivors(sessions: Seq<Session>, now: i64, settings: Settings) -> Seq<u64> {
    sessions.filter(|s: Session| !spec_closing(s, now, settings)).map_values(|s: Session| s.id)
}

/// Where the rest of one list is the rest of another, the same holds one
/// element on.
pub proof fn lemma_tail_after_removal(table: Seq<Session>, before: Seq<Session>, i: int, j: int)
    requires
        0 <= i < table.len(),
        0 <= j < before.len(),
        table.subrange(i, table.len() as int) == before.subrange(j, before.len() as int),
    ensures
        table.subrange(i + 1, table.len() as int) == before.subrange(j + 1, before.len() as int),
{
    let left = table.subrange(i, table.len() as int);
    let right = before.subrange(j, before.len() as int);
    assert(left.len() == right.len());
    assert(table.subrange(i + 1, table.len() as int) =~= left.subrange(1, left.len() as int));
    assert(before.subrange(j + 1, before.len() as int) =~= right.subrange(1, right.len() as int));
}

/// The identifiers of a list of sessions.
pub open spec fn spec_ids(sessions: Seq<Session>) -> Seq<u64> {
    sessions.map_values(|s: Session| s.id)
}

/// Whether an outcome is a failure that left the context as it was, for
/// want of random bytes or because the bytes drawn were no key.
pub open spec fn spec_unsupplied(pre: Context, post: Context, received: Result<Received, Error>) -> bool {
    &&& received matches Err(e)
    &&& e == Error::ResourceExhausted || e == Error::InvalidKeyEncoding
    &&& post == pre
}

impl Context {
    /// Whether `post` and `received` are what [`Context::receive`] makes of
    /// `pre` and a datagram.
    ///
    /// A datagram that does not parse fails as the parser says, and changes
    /// nothing. A confirmation and a data fragment are handled as
    /// [`Context::handle_confirm`] and [`Context::handle_data`] say. A
    /// response, a request for a ratchet and its acknowledgement are
    /// handled as their handlers say, for a key age within the configured
    /// bounds and, where one is needed, some well-formed key pair. An
    /// initiation that was answered before is answered with the same
    /// response again; any other is handled as [`Context::handle_resolved`] says for
    /// what the resolver answered: rejected where it turned the peer away,
    /// answered where it admitted the peer.
    pub open spec fn spec_received(
        pre: Context,
        datagram: Seq<u8>,
        now: i64,
        post: Context,
        received: Result<Received, Error>,
    ) -> bool {
        match spec_parse(datagram) {
            Err(e) => received matches Err(f) && f == e && post == pre,
            Ok(PacketView::Confirm { recipient_id, tag }) => Self::spec_confirm_handled(
                pre,
                recipient_id,
                tag,
                post,
                received,
            ),
            Ok(PacketView::Response { recipient_id, sender_id, ephemeral, tag }) => {
                ||| spec_unsupplied(pre, post, received)
                ||| exists|rekey_age: i64|
                    pre.settings.spec_rekey_age_allowed(rekey_age)
                        && #[trigger] Self::spec_response_handled(
                        pre,
                        recipient_id,
                        sender_id,
                        ephemeral,
                        tag,
                        datagram,
                        rekey_age,
                        now,
                        post,
                        received,
                    )
            },
            Ok(PacketView::Protected { header, sealed }) => match header.kind {
                ProtectedKind::Data => Self::spec_data_handled(
                    pre,
                    header,
                    sealed,
                    now,
                    post,
                    received,
                ),
                ProtectedKind::RekeyInit => {
                    ||| spec_unsupplied(pre, post, received)
                    ||| exists|fresh: KeyPair, rekey_age: i64|
                        fresh.wf() && pre.settings.spec_rekey_age_allowed(rekey_age)
                            && #[trigger] Self::spec_rekey_init_handled(
                            pre,
                            header,
                            sealed,
                            fresh,
                            rekey_age,
                            now,
                            post,
                            received,
                        )
                },
                ProtectedKind::RekeyAck => {
                    ||| spec_unsupplied(pre, post, received)
                    ||| exists|rekey_age: i64|
                        pre.settings.spec_rekey_age_allowed(rekey_age)
                            && #[trigger] Self::spec_rekey_ack_handled(
                            pre,
                            header,
                            sealed,
                            rekey_age,
                            now,
                            post,
                            received,
                        )
                },
            },
            Ok(PacketView::Init { sender_id, ephemeral, static_public }) => {
                if exists|k: int| #[trigger] pre.spec_repeats(datagram, k) {
                    exists|k: int|
                        {
                            &&& #[trigger] pre.spec_repeats(datagram, k)
                            &&& received matches Ok(r)
                            &&& spec_consumed(received, pre.sessions@[k].id, 1)
                            &&& r.replies@[0]@ == pre.sessions@[k].last_message@
                            &&& post == pre
                        }
                } else {
                    ||| spec_unsupplied(pre, post, received)
                    ||| exists|resolved: Option<RemoteIdentity>, fresh: KeyPair, rekey_age: i64|
                        fresh.wf() && pre.settings.spec_rekey_age_allowed(rekey_age)
                            && #[trigger] Self::spec_resolved_handled(
                            pre,
                            resolved,
                            sender_id,
                            ephemeral,
                            datagram,
                            fresh,
                            rekey_age,
                            now,
                            post,
                            received,
                        )
                }
            },
        }
    }

    /// Whether `post` and `received` are what [`Context::handle_resolved`] makes of
    /// `pre`, an initiation, and the resolver's answer for the long-term
    /// key that the initiator offered.
    ///
    /// A peer that the resolver turned away is rejected: that is the
    /// outcome, nothing is sent, and no session is created. A peer that it
    /// admitted is answered as [`Context::handle_init`] says, for the
    /// identity that the resolver gave.
    pub open spec fn spec_resolved_handled(
        pre: Context,
        resolved: Option<RemoteIdentity>,
        sender_id: u64,
        initiator_ephemeral: Seq<u8>,
        datagram: Seq<u8>,
        fresh: KeyPair,
        rekey_age: i64,
        now: i64,
        post: Context,
        received: Result<Received, Error>,
    ) -> bool {
        match resolved {
            None => {
                &&& received matches Ok(r)
                &&& r.result == ReceiveResult::Rejected
                &&& r.replies@.len() == 0
                &&& post == pre
            },
            Some(identity) => Self::spec_init_handled(
                pre,
                sender_id,
                initiator_ephemeral,
                datagram,
                identity,
                fresh,
                rekey_age,
                now,
                post,
                received,
            ),
        }
    }

    /// Takes in an initiation together with what the resolver answered for
    /// the long-term key in it: rejects the peer where the resolver turned
    /// it away, and answers it where the resolver admitted it. `fresh` is
    /// the ephemeral key pair to answer with, and `datagram` the initiation
    /// as it went over the wire.
    pub fn handle_resolved(
        &mut self,
        resolved: Option<RemoteIdentity>,
        sender_id: u64,
        initiator_ephemeral: &[u8],
        datagram: &[u8],
        fresh: KeyPair,
        rekey_age: i64,
        now: i64,
    ) -> (received: Result<Received, Error>)
        requires
            old(self).wf(),
            sender_id != HANDSHAKE_MARKER,
            fresh.wf(),
        ensures
            final(self).wf(),
            Self::spec_resolved_handled(
                *old(self),
                resolved,
                sender_id,
                initiator_ephemeral@,
                datagram@,
                fresh,
                rekey_age,
                now,
                *final(self),
                received,
            ),
    {
        match resolved {
            None => Ok(Received { result: ReceiveResult::Rejected, replies: Vec::new() }),
            Some(identity) => self.handle_init(
                sender_id,
                initiator_ephemeral,
                datagram,
                identity,
                fresh,
                rekey_age,
                now,
            ),
        }
    }

    /// Whether the session at position `k` answered the initiation
    /// `datagram` before and still awaits the confirmation.
    pub open spec fn spec_repeats(&self, datagram: Seq<u8>, k: int) -> bool {
        &&& 0 <= k < self.sessions@.len()
        &&& self.sessions@[k].state == SessionState::SentResponse
        &&& self.sessions@[k].init_bytes@ == datagram
    }

    /// Takes in a datagram from the network: parses it, routes it by its
    /// type and the session identifier it carries, and returns what it was
    /// together with the datagrams to send in reply. `app` is asked to
    /// resolve the long-term key of a peer that opens a handshake.
    ///
    /// A failure is reported for this datagram alone and leaves every other
    /// session as it was. Its own session is left as it was too, with
    /// these exceptions: a current key at its usage ceiling expires the
    /// session, a previous key at the ceiling is forgotten, a datagram
    /// whose tag does not verify adds to the run of failures that expires
    /// the session at `FAILURE_LIMIT`, and a datagram that opened has used
    /// up its counter even where what it carries is then refused.
    pub fn receive<A: ApplicationLayer>(&mut self, app: &A, datagram: &[u8], now: i64) -> (received:
        Result<Received, Error>)
        requires
            old(self).wf(),
        ensures
            final(self).wf(),
            Self::spec_received(*old(self), datagram@, now, *final(self), received),
    {
        let packet = match parse(datagram) {
            Ok(packet) => packet,
            Err(e) => {
                return Err(e);
            },
        };
        match packet {
            Packet::Confirm { recipient_id, tag } => self.handle_confirm(
                recipient_id,
                tag.as_slice(),
            ),
            Packet::Response { recipient_id, sender_id, ephemeral, tag } => {
                let rekey_age = match draw() {
                    Some(value) => self.settings.rekey_age(value),
                    None => {
                        return Err(Error::ResourceExhausted);
                    },
                };
                self.handle_response(
                    recipient_id,
                    sender_id,
                    ephemeral.as_slice(),
                    tag.as_slice(),
                    datagram,
                    rekey_age,
                    now,
                )
            },
            Packet::Protected { header, sealed } => match header.kind {
                ProtectedKind::Data => self.handle_data(&header, sealed.as_slice(), now),
                ProtectedKind::RekeyInit => {
                    let rekey_age = match draw() {
                        Some(value) => self.settings.rekey_age(value),
                        None => {
                            return Err(Error::ResourceExhausted);
                        },
                    };
                    let fresh = match KeyPair::generate() {
                        Ok(pair) => pair,
                        Err(e) => {
                            return Err(e);
                        },
                    };
                    self.handle_rekey_init(&header, sealed.as_slice(), fresh, rekey_age, now)
                },
                ProtectedKind::RekeyAck => {
                    let rekey_age = match draw() {
                        Some(value) => self.settings.rekey_age(value),
                        None => {
                            return Err(Error::ResourceExhausted);
                        },
                    };
                    self.handle_rekey_ack(&header, sealed.as_slice(), rekey_age, now)
                },
            },
            Packet::Init { sender_id, ephemeral, static_public } => {
                match self.repeated_init(datagram) {
                    Some(at) => {
                        assert(self.spec_repeats(datagram@, at as int));
                        return Ok(
                            single_reply(
                                self.sessions[at].id,
                                copy_bytes(self.sessions[at].last_message.as_slice()),
                            ),
                        );
                    },
                    None => {},
                }
                let rekey_age = match draw() {
                    Some(value) => self.settings.rekey_age(value),
                    None => {
                        return Err(Error::ResourceExhausted);
                    },
                };
                let fresh = match KeyPair::generate() {
                    Ok(pair) => pair,
                    Err(e) => {
                        return Err(e);
                    },
                };
                let resolved = app.resolve(static_public.as_slice());
                let received = self.handle_resolved(
                    resolved,
                    sender_id,
                    ephemeral.as_slice(),
                    datagram,
                    fresh,
                    rekey_age,
                    now,
                );
                proof {
                    assert(Self::spec_resolved_handled(
                        *old(self),
                        resolved,
                        sender_id,
                        ephemeral@,
                        datagram@,
                        fresh,
                        rekey_age,
                        now,
                        *self,
                        received,
                    ));
                }
                received
            },
        }
    }
}

/// Whether `after`, `closed` and `datagrams` are what the maintenance sweep
/// at time `now` makes of the sessions `before`, taken in table order.
///
/// A session whose duty is to close is not kept, and its record is the
/// next in `closed`. Any other session is kept, and is the next in `after`,
/// as [`Session::spec_serviced`] says; where [`Session::spec_owed`] names a
/// datagram for it, that datagram is the next in `datagrams`. It names one
/// for every session that is owed its handshake message again or a
/// repeated request for a ratchet, and for every session that is owed a
/// first request and for which a key pair could be drawn. Nothing else is
/// in any of the three.
pub open spec fn spec_swept(
    before: Seq<Session>,
    now: i64,
    settings: Settings,
    after: Seq<Session>,
    closed: Seq<Closed>,
    datagrams: Seq<Seq<u8>>,
) -> bool
    decreases before.len(),
{
    if before.len() == 0 {
        after.len() == 0 && closed.len() == 0 && datagrams.len() == 0
    } else {
        let session = before.last();
        let rest = before.drop_last();
        if spec_closing(session, now, settings) {
            &&& closed.len() > 0
            &&& closed.last() == spec_closed(session, now, settings)
            &&& spec_swept(rest, now, settings, after, closed.drop_last(), datagrams)
        } else {
            &&& after.len() > 0
            &&& Session::spec_serviced(session, now, settings, after.last())
            &&& (session.spec_duty(now, settings) == Duty::RetryRekey ==> Session::spec_owed(
                session,
                now,
                settings,
                after.last(),
            ) is Some)
            &&& match Session::spec_owed(session, now, settings, after.last()) {
                Some(datagram) => {
                    &&& datagrams.len() > 0
                    &&& datagrams.last() == datagram
                    &&& spec_swept(
                        rest,
                        now,
                        settings,
                        after.drop_last(),
                        closed,
                        datagrams.drop_last(),
                    )
                },
                None => spec_swept(rest, now, settings, after.drop_last(), closed, datagrams),
            }
        }
    }
}

/// The number of milliseconds after which the next sweep is due: the
/// shortest wait that any session is owed, and the retry interval where
/// none is shorter.
pub open spec fn spec_next_service(sessions: Seq<Session>, now: i64, settings: Settings) -> i64
    decreases sessions.len(),
{
    if sessions.len() == 0 {
        settings.retry_interval_ms
    } else {
        let rest = spec_next_service(sessions.drop_last(), now, settings);
        match sessions.last().spec_duty(now, settings) {
            Duty::Wait(ms) if ms < rest => ms,
            _ => rest,
        }
    }
}

/// The next sweep is due no later than any session's wait is over, and
/// exactly when the first is, unless the retry interval is shorter.
pub proof fn lemma_next_service_is_least(sessions: Seq<Session>, now: i64, settings: Settings)
    ensures
        spec_next_service(sessions, now, settings) <= settings.retry_interval_ms,
        forall|k: int|
            0 <= k < sessions.len() ==> ((#[trigger] sessions[k]).spec_duty(now, settings) matches Duty::Wait(
                ms,
            ) ==> spec_next_service(sessions, now, settings) <= ms),
        spec_next_service(sessions, now, settings) == settings.retry_interval_ms || exists|k: int|
            0 <= k < sessions.len() && (#[trigger] sessions[k]).spec_duty(now, settings)
                == Duty::Wait(spec_next_service(sessions, now, settings)),
    decreases sessions.len(),
{
    if sessions.len() > 0 {
        let rest = sessions.drop_last();
        lemma_next_service_is_least(rest, now, settings);
        let next = spec_next_service(sessions, now, settings);
        let before = spec_next_service(rest, now, settings);
        assert forall|k: int| 0 <= k < sessions.len() implies ((#[trigger] sessions[k]).spec_duty(
            now,
            settings,
        ) matches Duty::Wait(ms) ==> next <= ms) by {
            if k < rest.len() {
                assert(sessions[k] == rest[k]);
            }
        }
        if next != settings.retry_interval_ms {
            if next == before {
                let k = choose|k: int|
                    0 <= k < rest.len() && (#[trigger] rest[k]).spec_duty(now, settings)
                        == Duty::Wait(before);
                assert(sessions[k] == rest[k]);
            } else {
                assert(sessions[sessions.len() - 1].spec_duty(now, settings) == Duty::Wait(next));
            }
        }
    }
}

/// What the sweep leaves follows from what it found: the sessions closed
/// are exactly those whose duty is to close, the sessions kept are the
/// others, each under its identifier, and no more datagrams are handed out
/// than sessions are kept.
pub proof fn lemma_swept(
    before: Seq<Session>,
    now: i64,
    settings: Settings,
    after: Seq<Session>,
    closed: Seq<Closed>,
    datagrams: Seq<Seq<u8>>,
)
    requires
        spec_swept(before, now, settings, after, closed, datagrams),
    ensures
        closed == spec_closures(before, now, settings),
        spec_ids(after) == spec_survivors(before, now, settings),
        after.len() + closed.len() == before.len(),
        datagrams.len() <= after.len(),
    decreases before.len(),
{
    reveal(Seq::filter);
    let closing = |s: Session| spec_closing(s, now, settings);
    let staying = |s: Session| !spec_closing(s, now, settings);
    if before.len() == 0 {
        assert(closed =~= spec_closures(before, now, settings));
        assert(spec_ids(after) =~= spec_survivors(before, now, settings));
    } else {
        let session = before.last();
        let rest = before.drop_last();
        if spec_closing(session, now, settings) {
            lemma_swept(rest, now, settings, after, closed.drop_last(), datagrams);
            assert(before.filter(closing) == rest.filter(closing).push(session));
            assert(before.filter(staying) == rest.filter(staying));
            assert(closed =~= closed.drop_last().push(closed.last()));
            assert(spec_closures(before, now, settings) =~= spec_closures(
                rest,
                now,
                settings,
            ).push(spec_closed(session, now, settings)));
        } else {
            if Session::spec_owed(session, now, settings, after.last()) is Some {
                lemma_swept(rest, now, settings, after.drop_last(), closed, datagrams.drop_last());
            } else {
                lemma_swept(rest, now, settings, after.drop_last(), closed, datagrams);
            }
            assert(before.filter(closing) == rest.filter(closing));
            assert(before.filter(staying) == rest.filter(staying).push(session));
            assert(after.last().id == session.id);
            assert(spec_ids(after) =~= spec_ids(after.drop_last()).push(after.last().id));
            assert(spec_survivors(before, now, settings) =~= spec_survivors(
                rest,
                now,
                settings,
            ).push(session.id));
        }
    }
}

impl Context {
    /// The maintenance sweep: goes over every session at time `now`, in
    /// table order, and does what [`Session::spec_duty`] says it is owed.
    ///
    /// Sessions whose duty is to close are removed from the table, their
    /// key material erased, and reported with the reason. The others stay,
    /// each under its identifier: messages that stayed incomplete for too
    /// long are dropped, a handshake message that is due again is handed
    /// out, and so is the request of every session for which a ratchet is
    /// due and could be asked for. The datagrams returned are exactly
    /// those, in the order of the sessions they belong to; [`spec_swept`]
    /// says all of this.
    ///
    /// The result says after how many milliseconds the next sweep is due:
    /// the shortest wait of any session, and no more than the retry
    /// interval, after which thresholds of usage are looked at again.
    #[verifier::rlimit(50)]
    pub fn service(&mut self, now: i64) -> (report: ServiceReport)
        requires
            old(self).wf(),
        ensures
            final(self).wf(),
            *final(self) == (Context { sessions: final(self).sessions, ..*old(self) }),
            spec_swept(
                old(self).sessions@,
                now,
                old(self).settings,
                final(self).sessions@,
                report.closed@,
                byte_strings(report.datagrams@),
            ),
            report.closed@ == spec_closures(old(self).sessions@, now, old(self).settings),
            spec_ids(final(self).sessions@) == spec_survivors(
                old(self).sessions@,
                now,
                old(self).settings,
            ),
            report.next_service_ms == spec_next_service(
                old(self).sessions@,
                now,
                old(self).settings,
            ),
            0 < report.next_service_ms <= old(self).settings.retry_interval_ms,
            forall|k: int|
                0 <= k < old(self).sessions@.len() ==> ((#[trigger] old(self).sessions@[k]).spec_duty(
                    now,
                    old(self).settings,
                ) matches Duty::Wait(ms) ==> report.next_service_ms <= ms),
            report.next_service_ms == old(self).settings.retry_interval_ms || exists|k: int|
                0 <= k < old(self).sessions@.len() && (#[trigger] old(self).sessions@[k]).spec_duty(
                    now,
                    old(self).settings,
                ) == Duty::Wait(report.next_service_ms),
    {
        let settings = self.settings;
        let ghost before = self.sessions@;
        let mut next: i64 = settings.retry_interval_ms;
        let mut datagrams: Vec<Vec<u8>> = Vec::new();
        let mut closed: Vec<Closed> = Vec::new();
        let mut i: usize = 0;
        proof {
            assert(byte_strings(datagrams@) =~= Seq::<Seq<u8>>::empty());
            assert(self.sessions@.subrange(0, self.sessions@.len() as int) =~= before.subrange(
                0,
                before.len() as int,
            ));
        }
        while i < self.sessions.len()
            invariant
                old(self).wf(),
                before == old(self).sessions@,
                settings == old(self).settings,
                *self == (Context { sessions: self.sessions, ..*old(self) }),
                i <= self.sessions@.len(),
                self.sessions@.len() + closed@.len() == before.len(),
                self.sessions@.subrange(i as int, self.sessions@.len() as int) == before.subrange(
                    i + closed@.len(),
                    before.len() as int,
                ),
                spec_swept(
                    before.subrange(0, i + closed@.len()),
                    now,
                    settings,
                    self.sessions@.subrange(0, i as int),
                    closed@,
                    byte_strings(datagrams@),
                ),
                forall|k: int|
                    0 <= k < self.sessions@.len() ==> (#[trigger] self.sessions@[k]).wf()
                        && self.sessions@[k].id < self.next_id,
                forall|a: int, b: int|
                    0 <= a < b < self.sessions@.len() ==> (#[trigger] self.sessions@[a]).id
                        != (#[trigger] self.sessions@[b]).id,
                0 < next <= settings.retry_interval_ms,
                next == spec_next_service(before.subrange(0, i + closed@.len()), now, settings),
            decreases self.sessions@.len() - i,
        {
            let ghost j = i + closed@.len();
            let ghost done = before.subrange(0, j as int);
            let ghost more = before.subrange(0, j + 1);
            let ghost table = self.sessions@;
            let ghost kept = table.subrange(0, i as int);
            let ghost records = closed@;
            let ghost sent = byte_strings(datagrams@);
            proof {
                assert(more.drop_last() =~= done);
                assert(more.last() == before[j as int]);
                assert(table[i as int] == table.subrange(i as int, table.len() as int)[0]);
                assert(table[i as int] == before[j as int]);
            }
            let duty = self.sessions[i].duty(now, &settings);
            match duty {
                Duty::Close(reason) => {
                    let mut session = self.sessions.remove(i);
                    closed.push(Closed { id: session.id, reason });
                    session.erase();
                    proof {
                        assert(self.sessions@.subrange(0, i as int) =~= kept);
                        assert(closed@.drop_last() =~= records);
                        assert(closed@.last() == spec_closed(before[j as int], now, settings));
                        lemma_tail_after_removal(table, before, i as int, j as int);
                        assert(self.sessions@.subrange(i as int, self.sessions@.len() as int)
                            =~= table.subrange(i + 1, table.len() as int));
                    }
                },
                _ => {
                    let fresh = match duty {
                        Duty::Rekey => match KeyPair::generate() {
                            Ok(pair) => Some(pair),
                            Err(_) => None,
                        },
                        _ => None,
                    };
                    match duty {
                        Duty::Wait(ms) => {
                            next = sooner(next, ms);
                        },
                        _ => {},
                    }
                    let session = &mut self.sessions[i];
                    let owed = session.sweep(duty, fresh, now, &settings);
                    let ghost handed = crate::primitives::bytes_view(owed);
                    match owed {
                        Some(datagram) => {
                            datagrams.push(datagram);
                        },
                        None => {},
                    }
                    proof {
                        assert(self.sessions@ =~= table.update(i as int, self.sessions@[i as int]));
                        assert(self.sessions@.subrange(0, i + 1).drop_last() =~= kept);
                        assert(self.sessions@.subrange(0, i + 1).last() == self.sessions@[i as int]);
                        if handed is Some {
                            assert(byte_strings(datagrams@).drop_last() =~= sent);
                            assert(byte_strings(datagrams@).last() == handed.unwrap());
                        } else {
                            assert(byte_strings(datagrams@) =~= sent);
                        }
                        lemma_tail_after_removal(table, before, i as int, j as int);
                        assert(self.sessions@.subrange(i + 1, self.sessions@.len() as int)
                            =~= table.subrange(i + 1, table.len() as int));
                    }
                    i += 1;
                },
            }
        }
        proof {
            assert(before.subrange(0, before.len() as int) =~= before);
            assert(self.sessions@.subrange(0, i as int) =~= self.sessions@);
            lemma_swept(
                before,
                now,
                settings,
                self.sessions@,
                closed@,
                byte_strings(datagrams@),
            );
            lemma_next_service_is_least(before, now, settings);
        }
        ServiceReport { next_service_ms: next, datagrams, closed }
    }

    /// Closes the session with the given identifier and removes it from
    /// the table. Says whether there was one.
    pub fn close(&mut self, id: u64) -> (found: bool)
        requires
            old(self).wf(),
        ensures
            final(self).wf(),
            *final(self) == (Context { sessions: final(self).sessions, ..*old(self) }),
            match old(self).spec_position(id) {
                Some(i) => found && final(self).sessions@ == old(self).sessions@.remove(i),
                None => !found && final(self).sessions@ == old(self).sessions@,
            },
    {
        match self.position(id) {
            Some(i) => {
                let mut session = self.sessions.remove(i);
                session.erase();
                true
            },
            None => false,
        }
    }
}

/// The outcome that reports a consumed protocol packet of session `id`
/// with one datagram to send in reply.
pub fn single_reply(id: u64, datagram: Vec<u8>) -> (received: Received)
    ensures
        received.result == ReceiveResult::OkConsumed(Some(id)),
        received.replies@.len() == 1,
        received.replies@[0] == datagram,
{
    let mut replies: Vec<Vec<u8>> = Vec::new();
    replies.push(datagram);
    Received { result: ReceiveResult::OkConsumed(Some(id)), replies }
}

/// Draws 64 bits from the operating system's entropy source, or `None`
/// where the source gives nothing. Nothing is known of the value.
pub fn draw() -> (value: Option<u64>) {
    drawn(os_random(8))
}

/// The number that eight or more random bytes stand for: the first eight,
/// read as a big-endian integer. Fewer bytes, or none, stand for nothing.
pub open spec fn spec_drawn(bytes: Option<Seq<u8>>) -> Option<u64> {
    match bytes {
        Some(b) if b.len() >= 8 => Some(crate::wire::spec_be_u64(b.subrange(0, 8))),
        _ => None,
    }
}

/// Turns what the entropy source gave into the number it stands for.
pub fn drawn(bytes: Option<Vec<u8>>) -> (value: Option<u64>)
    ensures
        value == spec_drawn(crate::primitives::bytes_view(bytes)),
{
    match bytes {
        Some(b) => {
            if b.len() >= 8 {
                Some(read_u64(b.as_slice(), 0))
            } else {
                None
            }
        },
        None => None,
    }
}

} // verus!

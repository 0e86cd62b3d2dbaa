//! Session keys: the key schedule that turns shared secrets into cipher
//! keys, and the state of one key generation with its send counter and its
//! replay window.

use vstd::prelude::*;

use crate::error::Error;
use crate::fragment::byte_strings;
use crate::fragment::MAX_FRAGMENTS;
use crate::primitives::expand;
use crate::primitives::mix;
use crate::primitives::open;
use crate::primitives::seal;
use crate::primitives::spec_expand;
use crate::primitives::spec_mix;
use crate::primitives::spec_open;
use crate::primitives::spec_seal;
use crate::primitives::spec_wiped;
use crate::primitives::wipe;
use crate::primitives::CIPHER_KEY_SIZE;
use crate::primitives::CIPHER_MAX_INPUT;
use crate::primitives::HASH_SIZE;
use crate::primitives::NONCE_SIZE;
use crate::replay::ReplayWindow;
use crate::settings::MAX_USES;
use crate::wire::lemma_encoded_lengths;
use crate::wire::put_bytes;
use crate::wire::put_u64;
use crate::wire::spec_u64_be;
use crate::wire::take_bytes;
use crate::wire::ProtectedHeader;
use crate::wire::ProtectedKind;
use crate::wire::PROTECTED_OVERHEAD;

verus! {

/// Purpose label of the tag that authenticates a handshake response.
pub const LABEL_RESPONSE_TAG: u8 = 1;

/// Purpose label of the tag that authenticates a handshake confirmation.
pub const LABEL_CONFIRM_TAG: u8 = 2;

/// Purpose label of the secret that the next ratchet starts from.
pub const LABEL_RATCHET: u8 = 3;

/// Purpose label of the cipher key for datagrams from initiator to responder.
pub const LABEL_INITIATOR_KEY: u8 = 4;

/// Purpose label of the cipher key for datagrams from responder to initiator.
pub const LABEL_RESPONDER_KEY: u8 = 5;

/// Purpose label of the fingerprint by which a key can be told from others.
pub const LABEL_FINGERPRINT: u8 = 6;

/// Which side of the handshake a party was on. It decides which of the two
/// cipher keys of a generation it sends with.
#[derive(Clone, Copy, Debug, PartialEq, Eq, Structural)]
pub enum Role {
    Initiator,
    Responder,
}

impl Role {
    /// The label of the key that this side sends with.
    pub open spec fn spec_send_label(self) -> u8 {
        match self {
            Role::Initiator => LABEL_INITIATOR_KEY,
            Role::Responder => LABEL_RESPONDER_KEY,
        }
    }

    /// The label of the key that this side receives with: the one its peer
    /// sends with.
    pub open spec fn spec_receive_label(self) -> u8 {
        match self {
            Role::Initiator => LABEL_RESPONDER_KEY,
            Role::Responder => LABEL_INITIATOR_KEY,
        }
    }

    /// The other side.
    pub open spec fn peer(self) -> Role {
        match self {
            Role::Initiator => Role::Responder,
            Role::Responder => Role::Initiator,
        }
    }
}

/// The master secret of a handshake: the pre-shared secret with the three
/// Diffie-Hellman results and the transcript mixed in, in this order.
pub open spec fn spec_master(
    psk: Seq<u8>,
    ephemeral_ephemeral: Seq<u8>,
    static_ephemeral: Seq<u8>,
    ephemeral_static: Seq<u8>,
    transcript: Seq<u8>,
) -> Seq<u8> {
    spec_mix(
        spec_mix(spec_mix(spec_mix(psk, ephemeral_ephemeral), static_ephemeral), ephemeral_static),
        transcript,
    )
}

/// Derives the master secret of a handshake.
pub fn derive_master(
    psk: &[u8],
    ephemeral_ephemeral: &[u8],
    static_ephemeral: &[u8],
    ephemeral_static: &[u8],
    transcript: &[u8],
) -> (master: Vec<u8>)
    ensures
        master@ == spec_master(
            psk@,
            ephemeral_ephemeral@,
            static_ephemeral@,
            ephemeral_static@,
            transcript@,
        ),
        master@.len() == HASH_SIZE,
{
    let c1 = mix(psk, ephemeral_ephemeral);
    let c2 = mix(c1.as_slice(), static_ephemeral);
    let c3 = mix(c2.as_slice(), ephemeral_static);
    mix(c3.as_slice(), transcript)
}

/// The secret that a ratchet derives from the one before it and a fresh
/// Diffie-Hellman result.
pub open spec fn spec_ratchet_key(ratchet_key: Seq<u8>, shared: Seq<u8>) -> Seq<u8> {
    spec_mix(spec_expand(ratchet_key, LABEL_RATCHET), shared)
}

/// The cipher key that a generation's secret yields for a purpose.
pub open spec fn spec_cipher_key(ratchet_key: Seq<u8>, label: u8) -> Seq<u8> {
    spec_expand(ratchet_key, label).subrange(0, CIPHER_KEY_SIZE as int)
}

/// Derives the cipher key of a generation for a purpose.
pub fn cipher_key(ratchet_key: &[u8], label: u8) -> (key: Vec<u8>)
    ensures
        key@ == spec_cipher_key(ratchet_key@, label),
        key@.len() == CIPHER_KEY_SIZE,
{
    let full = expand(ratchet_key, label);
    take_bytes(full.as_slice(), 0, CIPHER_KEY_SIZE)
}

/// The nonce of a protected datagram: its counter, its type tag, and three
/// zero bytes. Under one key no two datagrams share a counter, so no two
/// share a nonce.
pub open spec fn spec_nonce(counter: u64, kind: ProtectedKind) -> Seq<u8> {
    spec_u64_be(counter) + seq![kind.spec_tag(), 0u8, 0u8, 0u8]
}

/// Builds the nonce of a protected datagram.
pub fn nonce(counter: u64, kind: ProtectedKind) -> (bytes: Vec<u8>)
    ensures
        bytes@ == spec_nonce(counter, kind),
        bytes@.len() == NONCE_SIZE,
{
    proof {
        lemma_encoded_lengths(0, 0, arbitrary());
    }
    let mut bytes: Vec<u8> = Vec::new();
    put_u64(&mut bytes, counter);
    bytes.push(kind.tag());
    bytes.push(0);
    bytes.push(0);
    bytes.push(0);
    assert(bytes@ =~= spec_nonce(counter, kind));
    bytes
}

/// The view of a result that carries bytes.
pub open spec fn bytes_result(result: Result<Vec<u8>, Error>) -> Result<Seq<u8>, Error> {
    match result {
        Ok(bytes) => Ok(bytes@),
        Err(e) => Err(e),
    }
}

/// One key generation of a session.
pub struct KeyState {
    /// The number of ratchets that led to this key, the handshake counting
    /// as the first.
    pub generation: u64,
    /// The secret that the cipher keys were derived from, and that the next
    /// ratchet starts from.
    pub ratchet_key: Vec<u8>,
    /// The cipher key for datagrams to the peer.
    pub send_key: Vec<u8>,
    /// The cipher key for datagrams from the peer.
    pub receive_key: Vec<u8>,
    /// What the caller may show to tell this key from others.
    pub fingerprint: Vec<u8>,
    /// The counter of the last datagram sent; zero before the first.
    pub send_counter: u64,
    /// The number of datagrams accepted from the peer.
    pub received: u64,
    /// The peer's counters that were accepted.
    pub window: ReplayWindow,
    /// When the key was derived.
    pub created_at: i64,
    /// The age at which the key is due for a ratchet.
    pub rekey_age: i64,
    /// Whether this side started the exchange that led to this key. The
    /// side that answered starts the next one.
    pub initiated_locally: bool,
}

impl KeyState {
    /// A key state is well formed when its keys have their fixed lengths
    /// and its usage is within the highest ceiling there is.
    pub open spec fn wf(&self) -> bool {
        &&& self.ratchet_key@.len() == HASH_SIZE
        &&& self.send_key@.len() == CIPHER_KEY_SIZE
        &&& self.receive_key@.len() == CIPHER_KEY_SIZE
        &&& self.fingerprint@.len() == HASH_SIZE
        &&& self.window.wf()
        &&& self.send_counter + self.received <= MAX_USES
    }

    /// The number of datagrams that were processed under this key.
    pub open spec fn spec_uses(&self) -> nat {
        (self.send_counter + self.received) as nat
    }

    /// Whether the key has reached the usage ceiling `limit`. A key that
    /// has is never used again.
    pub open spec fn spec_expired(&self, limit: u64) -> bool {
        self.spec_uses() >= limit
    }

    /// Whether this is the key of generation `generation` that `role`
    /// derives from `ratchet_key` at time `now`, unused.
    pub open spec fn spec_derived(
        &self,
        ratchet_key: Seq<u8>,
        generation: u64,
        role: Role,
        initiated_locally: bool,
        now: i64,
        rekey_age: i64,
    ) -> bool {
        &&& self.generation == generation
        &&& self.ratchet_key@ == ratchet_key
        &&& self.send_key@ == spec_cipher_key(ratchet_key, role.spec_send_label())
        &&& self.receive_key@ == spec_cipher_key(ratchet_key, role.spec_receive_label())
        &&& self.fingerprint@ == spec_expand(ratchet_key, LABEL_FINGERPRINT)
        &&& self.send_counter == 0
        &&& self.received == 0
        &&& self.window.highest == 0
        &&& (forall|c: u64| #[trigger] self.window.rejects(c) <==> c == 0)
        &&& self.created_at == now
        &&& self.rekey_age == rekey_age
        &&& self.initiated_locally == initiated_locally
    }

    /// Derives the keys of a generation from its secret.
    pub fn derive(
        ratchet_key: Vec<u8>,
        generation: u64,
        role: Role,
        initiated_locally: bool,
        now: i64,
        rekey_age: i64,
    ) -> (key: KeyState)
        requires
            ratchet_key@.len() == HASH_SIZE,
        ensures
            key.wf(),
            key.spec_derived(ratchet_key@, generation, role, initiated_locally, now, rekey_age),
    {
        let (send_label, receive_label) = match role {
            Role::Initiator => (LABEL_INITIATOR_KEY, LABEL_RESPONDER_KEY),
            Role::Responder => (LABEL_RESPONDER_KEY, LABEL_INITIATOR_KEY),
        };
        let send_key = cipher_key(ratchet_key.as_slice(), send_label);
        let receive_key = cipher_key(ratchet_key.as_slice(), receive_label);
        let fingerprint = expand(ratchet_key.as_slice(), LABEL_FINGERPRINT);
        KeyState {
            generation,
            ratchet_key,
            send_key,
            receive_key,
            fingerprint,
            send_counter: 0,
            received: 0,
            window: ReplayWindow::new(),
            created_at: now,
            rekey_age,
            initiated_locally,
        }
    }

    /// The number of datagrams that were processed under this key.
    pub fn uses(&self) -> (n: u64)
        requires
            self.wf(),
        ensures
            n == self.spec_uses(),
    {
        self.send_counter + self.received
    }

    /// The header of the next datagram this key seals.
    pub open spec fn spec_next_header(
        &self,
        recipient_id: u64,
        kind: ProtectedKind,
        message_id: u64,
        index: u16,
        count: u16,
    ) -> ProtectedHeader {
        ProtectedHeader {
            recipient_id,
            kind,
            generation: self.generation,
            counter: (self.send_counter + 1) as u64,
            message_id,
            index,
            count,
        }
    }

    /// What [`KeyState::seal`] returns and what it leaves behind: an expired
    /// key seals nothing; otherwise the datagram is the header, under the
    /// next counter, followed by the ciphertext that binds it.
    pub open spec fn spec_seal(
        self,
        recipient_id: u64,
        kind: ProtectedKind,
        message_id: u64,
        index: u16,
        count: u16,
        plaintext: Seq<u8>,
        limit: u64,
    ) -> (KeyState, Result<Seq<u8>, Error>) {
        if self.spec_expired(limit) {
            (self, Err(Error::SessionExpired))
        } else {
            let header = self.spec_next_header(recipient_id, kind, message_id, index, count);
            match spec_seal(
                self.send_key@,
                spec_nonce(header.counter, kind),
                header.spec_encode(),
                plaintext,
            ) {
                Ok(sealed) => (
                    KeyState { send_counter: header.counter, ..self },
                    Ok(header.spec_encode() + sealed),
                ),
                Err(e) => (self, Err(e)),
            }
        }
    }

    /// Seals `plaintext` into the next protected datagram for the peer's
    /// session `recipient_id`. Each call that succeeds uses a counter one
    /// higher than the last, so no counter is used twice under this key.
    /// Fails with `SessionExpired` once the key has reached `limit` uses.
    pub fn seal(
        &mut self,
        recipient_id: u64,
        kind: ProtectedKind,
        message_id: u64,
        index: u16,
        count: u16,
        plaintext: &[u8],
        limit: u64,
    ) -> (datagram: Result<Vec<u8>, Error>)
        requires
            old(self).wf(),
            limit <= MAX_USES,
        ensures
            final(self).wf(),
            (*final(self), bytes_result(datagram)) == old(self).spec_seal(
                recipient_id,
                kind,
                message_id,
                index,
                count,
                plaintext@,
                limit,
            ),
            !old(self).spec_expired(limit) && plaintext@.len() <= CIPHER_MAX_INPUT
                ==> datagram is Ok,
            datagram matches Ok(d) ==> d@.len() == PROTECTED_OVERHEAD + plaintext@.len(),
    {
        if self.send_counter + self.received >= limit {
            return Err(Error::SessionExpired);
        }
        let header = ProtectedHeader {
            recipient_id,
            kind,
            generation: self.generation,
            counter: self.send_counter + 1,
            message_id,
            index,
            count,
        };
        let mut datagram = header.encode();
        let nonce = nonce(header.counter, kind);
        match seal(self.send_key.as_slice(), nonce.as_slice(), datagram.as_slice(), plaintext) {
            Ok(sealed) => {
                put_bytes(&mut datagram, sealed.as_slice());
                self.send_counter = header.counter;
                Ok(datagram)
            },
            Err(e) => Err(e),
        }
    }

    /// What [`KeyState::open`] returns: an expired key opens nothing, a
    /// counter that the window refuses is a replay, and anything else is
    /// what the cipher makes of it.
    pub open spec fn spec_open(&self, header: ProtectedHeader, sealed: Seq<u8>, limit: u64) -> Result<
        Seq<u8>,
        Error,
    > {
        if self.spec_expired(limit) {
            Err(Error::SessionExpired)
        } else if self.window.rejects(header.counter) {
            Err(Error::ReplayDetected)
        } else {
            spec_open(
                self.receive_key@,
                spec_nonce(header.counter, header.kind),
                header.spec_encode(),
                sealed,
            )
        }
    }

    /// Whether `post` is `pre` after one more datagram of the peer, with
    /// counter `counter`, was accepted: the window took the counter in, the
    /// number of datagrams received went up by one, and nothing else changed.
    pub open spec fn spec_counted(pre: KeyState, counter: u64, post: KeyState) -> bool {
        &&& ReplayWindow::accepted_step(pre.window, counter, post.window)
        &&& post == (KeyState {
            window: post.window,
            received: (pre.received + 1) as u64,
            ..pre
        })
    }

    /// Opens a protected datagram from the peer. The counter is marked as
    /// accepted only once the tag has verified, so a forged datagram leaves
    /// the window as it was. Fails with `SessionExpired` once the key has
    /// reached `limit` uses, with `ReplayDetected` where the window refuses
    /// the counter, and with `AuthenticationFailed` where the tag does not
    /// verify; a failure changes nothing.
    pub fn open(&mut self, header: &ProtectedHeader, sealed: &[u8], limit: u64) -> (plaintext: Result<
        Vec<u8>,
        Error,
    >)
        requires
            old(self).wf(),
            limit <= MAX_USES,
        ensures
            final(self).wf(),
            bytes_result(plaintext) == old(self).spec_open(*header, sealed@, limit),
            plaintext is Err ==> *final(self) == *old(self),
            plaintext is Ok ==> Self::spec_counted(*old(self), header.counter, *final(self)),
    {
        if self.send_counter + self.received >= limit {
            return Err(Error::SessionExpired);
        }
        if self.window.is_replay(header.counter) {
            return Err(Error::ReplayDetected);
        }
        let aad = header.encode();
        let nonce = nonce(header.counter, header.kind);
        match open(self.receive_key.as_slice(), nonce.as_slice(), aad.as_slice(), sealed) {
            Ok(plaintext) => {
                self.window.accept(header.counter);
                self.received = self.received + 1;
                Ok(plaintext)
            },
            Err(e) => Err(e),
        }
    }

    /// The datagram that carries fragment `i` of a message: it is sealed
    /// under the counter that follows the `i` fragments before it.
    pub open spec fn spec_fragment_datagram(
        self,
        recipient_id: u64,
        message_id: u64,
        pieces: Seq<Seq<u8>>,
        i: int,
        limit: u64,
    ) -> Result<Seq<u8>, Error> {
        (KeyState { send_counter: (self.send_counter + i) as u64, ..self }).spec_seal(
            recipient_id,
            ProtectedKind::Data,
            message_id,
            i as u16,
            pieces.len() as u16,
            pieces[i],
            limit,
        ).1
    }

    /// Seals the fragments of one message, in order, under consecutive
    /// counters.
    pub fn seal_fragments(
        &mut self,
        recipient_id: u64,
        message_id: u64,
        pieces: &Vec<Vec<u8>>,
        limit: u64,
    ) -> (datagrams: Vec<Vec<u8>>)
        requires
            old(self).wf(),
            limit <= MAX_USES,
            1 <= pieces@.len() <= MAX_FRAGMENTS,
            old(self).spec_uses() + pieces@.len() <= limit,
            forall|i: int| 0 <= i < pieces@.len() ==> (#[trigger] pieces@[i])@.len() <= CIPHER_MAX_INPUT,
        ensures
            final(self).wf(),
            *final(self) == (KeyState {
                send_counter: (old(self).send_counter + pieces@.len()) as u64,
                ..*old(self)
            }),
            datagrams@.len() == pieces@.len(),
            forall|i: int|
                0 <= i < pieces@.len() ==> old(self).spec_fragment_datagram(
                    recipient_id,
                    message_id,
                    byte_strings(pieces@),
                    i,
                    limit,
                ) == Ok::<_, Error>((#[trigger] datagrams@[i])@),
            forall|i: int|
                0 <= i < pieces@.len() ==> (#[trigger] datagrams@[i])@.len() == PROTECTED_OVERHEAD
                    + pieces@[i]@.len(),
    {
        let count = pieces.len();
        let mut datagrams: Vec<Vec<u8>> = Vec::new();
        let mut i: usize = 0;
        while i < count
            invariant
                count == pieces@.len(),
                1 <= count <= MAX_FRAGMENTS,
                i <= count,
                limit <= MAX_USES,
                old(self).wf(),
                old(self).spec_uses() + count <= limit,
                forall|j: int|
                    0 <= j < pieces@.len() ==> (#[trigger] pieces@[j])@.len() <= CIPHER_MAX_INPUT,
                *self == (KeyState { send_counter: (old(self).send_counter + i) as u64, ..*old(self) }),
                datagrams@.len() == i,
                forall|j: int|
                    0 <= j < i ==> (#[trigger] datagrams@[j])@.len() == PROTECTED_OVERHEAD
                        + pieces@[j]@.len(),
                forall|j: int|
                    0 <= j < i ==> old(self).spec_fragment_datagram(
                        recipient_id,
                        message_id,
                        byte_strings(pieces@),
                        j,
                        limit,
                    ) == Ok::<_, Error>((#[trigger] datagrams@[j])@),
            decreases count - i,
        {
            assert(byte_strings(pieces@)[i as int] == pieces@[i as int]@);
            assert(byte_strings(pieces@).len() == count);
            match self.seal(
                recipient_id,
                ProtectedKind::Data,
                message_id,
                i as u16,
                count as u16,
                pieces[i].as_slice(),
                limit,
            ) {
                Ok(datagram) => {
                    datagrams.push(datagram);
                },
                Err(_) => {
                    assert(false);
                },
            }
            i += 1;
        }
        datagrams
    }

    /// Derives the next generation from this one and a fresh Diffie-Hellman
    /// result. The generation counter goes up by one, and the new key
    /// starts unused.
    pub fn ratchet(
        &self,
        shared: &[u8],
        role: Role,
        initiated_locally: bool,
        now: i64,
        rekey_age: i64,
    ) -> (next: KeyState)
        requires
            self.wf(),
            self.generation < u64::MAX,
        ensures
            next.wf(),
            next.generation == self.generation + 1,
            next.spec_derived(
                spec_ratchet_key(self.ratchet_key@, shared@),
                (self.generation + 1) as u64,
                role,
                initiated_locally,
                now,
                rekey_age,
            ),
    {
        let step = expand(self.ratchet_key.as_slice(), LABEL_RATCHET);
        let ratchet_key = mix(step.as_slice(), shared);
        KeyState::derive(ratchet_key, self.generation + 1, role, initiated_locally, now, rekey_age)
    }

    /// Whether no key material is left in this key state.
    pub open spec fn spec_erased(&self) -> bool {
        &&& spec_wiped(self.ratchet_key@)
        &&& spec_wiped(self.send_key@)
        &&& spec_wiped(self.receive_key@)
    }

    /// Overwrites the secret and the cipher keys with zeros. Everything
    /// else stays as it is.
    pub fn erase(&mut self)
        requires
            old(self).wf(),
        ensures
            final(self).wf(),
            final(self).spec_erased(),
            *final(self) == (KeyState {
                ratchet_key: final(self).ratchet_key,
                send_key: final(self).send_key,
                receive_key: final(self).receive_key,
                ..*old(self)
            }),
    {
        wipe(&mut self.ratchet_key);
        wipe(&mut self.send_key);
        wipe(&mut self.receive_key);
    }

    /// Whether a ratchet is due: the key has reached `rekey_after_uses`
    /// uses, or its age has reached the age it was given.
    pub open spec fn spec_rekey_due(&self, now: i64, rekey_after_uses: u64) -> bool {
        self.spec_uses() >= rekey_after_uses || crate::clock::spec_due(
            now,
            self.created_at,
            self.rekey_age,
        )
    }

    /// Whether a ratchet is due.
    pub fn rekey_due(&self, now: i64, rekey_after_uses: u64) -> (is_due: bool)
        requires
            self.wf(),
        ensures
            is_due == self.spec_rekey_due(now, rekey_after_uses),
    {
        self.send_counter + self.received >= rekey_after_uses || crate::clock::due(
            now,
            self.created_at,
            self.rekey_age,
        )
    }
}

} // verus!

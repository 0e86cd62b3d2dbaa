//! Fragmentation and reassembly: how an application message of any length
//! is cut into pieces that each fit one datagram, how the pieces are put
//! together again, and the proof that nothing is lost or reordered between
//! the two.

use vstd::prelude::*;

use crate::clock::elapsed;
use crate::clock::spec_elapsed;
use crate::error::Error;
use crate::primitives::bytes_view;
use crate::wire::put_bytes;
use crate::wire::take_bytes;

verus! {

/// The most fragments a message may be cut into.
pub const MAX_FRAGMENTS: u16 = 64;

/// The most messages a session reassembles at one time.
pub const MAX_PENDING: usize = 8;

/// The views of a list of byte strings.
pub open spec fn byte_strings(list: Seq<Vec<u8>>) -> Seq<Seq<u8>> {
    list.map_values(|bytes: Vec<u8>| bytes@)
}

/// The fragments of `message` where a datagram carries at most `usable`
/// bytes: all but the last are full, and an empty message is one empty
/// fragment.
pub open spec fn spec_fragments(message: Seq<u8>, usable: nat) -> Seq<Seq<u8>>
    decreases message.len(),
{
    if usable == 0 || message.len() <= usable {
        seq![message]
    } else {
        seq![message.subrange(0, usable as int)] + spec_fragments(
            message.subrange(usable as int, message.len() as int),
            usable,
        )
    }
}

/// The number of fragments that a message of `len` bytes is cut into.
pub open spec fn spec_fragment_count(len: nat, usable: nat) -> nat {
    if len == 0 || usable == 0 {
        1
    } else {
        ((len + usable - 1) / (usable as int)) as nat
    }
}

/// Fragmentation is lossless and order-preserving: the fragments of a
/// message, joined in order, are the message. Each fragment fits a
/// datagram, and there are as many as the message length divided by the
/// usable size, rounded up.
pub proof fn lemma_fragments_reassemble(message: Seq<u8>, usable: nat)
    requires
        usable > 0,
    ensures
        spec_fragments(message, usable).flatten() == message,
        spec_fragments(message, usable).len() == spec_fragment_count(message.len(), usable),
        forall|i: int|
            0 <= i < spec_fragments(message, usable).len() ==> (#[trigger] spec_fragments(
                message,
                usable,
            )[i]).len() <= usable,
    decreases message.len(),
{
    let fragments = spec_fragments(message, usable);
    if message.len() <= usable {
        assert(fragments.drop_first() =~= Seq::<Seq<u8>>::empty());
        assert(fragments.flatten() == fragments.first() + fragments.drop_first().flatten());
        assert(fragments.first() + Seq::<u8>::empty() =~= message);
        if message.len() > 0 {
            assert((message.len() + usable - 1) / (usable as int) == 1) by (nonlinear_arith)
                requires
                    0 < message.len() <= usable,
            ;
        }
    } else {
        let rest = message.subrange(usable as int, message.len() as int);
        lemma_fragments_reassemble(rest, usable);
        assert(fragments.drop_first() =~= spec_fragments(rest, usable));
        assert(fragments.first() == message.subrange(0, usable as int));
        assert(fragments.flatten() == fragments.first() + fragments.drop_first().flatten());
        assert(message.subrange(0, usable as int) + rest =~= message);
        assert((message.len() + usable - 1) / (usable as int) == (rest.len() + usable - 1) / (
        usable as int) + 1) by (nonlinear_arith)
            requires
                rest.len() == message.len() - usable,
                usable > 0,
        ;
        assert forall|i: int| 0 <= i < fragments.len() implies (#[trigger] fragments[i]).len()
            <= usable by {
            if i > 0 {
                assert(fragments[i] == spec_fragments(rest, usable)[i - 1]);
            }
        }
    }
}

/// The number of fragments that a message of `len` bytes is cut into.
pub fn fragment_count(len: usize, usable: usize) -> (count: usize)
    requires
        usable > 0,
    ensures
        count == spec_fragment_count(len as nat, usable as nat),
        count >= 1,
{
    if len == 0 {
        1
    } else {
        proof {
            let l = len as int;
            let u = usable as int;
            assert((l + u - 1) / u == (l - 1) / u + 1 && (l - 1) / u >= 0) by (nonlinear_arith)
                requires
                    l > 0,
                    u > 0,
            ;
        }
        (len - 1) / usable + 1
    }
}

/// Cuts `message` into its fragments.
pub fn split(message: &[u8], usable: usize) -> (pieces: Vec<Vec<u8>>)
    requires
        usable > 0,
    ensures
        byte_strings(pieces@) == spec_fragments(message@, usable as nat),
{
    let len = message.len();
    let mut pieces: Vec<Vec<u8>> = Vec::new();
    let mut offset: usize = 0;
    assert(message@.subrange(0, len as int) =~= message@);
    assert(byte_strings(pieces@) =~= Seq::<Seq<u8>>::empty());
    while len - offset > usable
        invariant
            usable > 0,
            len == message@.len(),
            offset <= len,
            byte_strings(pieces@) + spec_fragments(
                message@.subrange(offset as int, len as int),
                usable as nat,
            ) == spec_fragments(message@, usable as nat),
        decreases len - offset,
    {
        let ghost rest = message@.subrange(offset as int, len as int);
        let ghost before = byte_strings(pieces@);
        let piece = take_bytes(message, offset, offset + usable);
        pieces.push(piece);
        assert(rest.subrange(0, usable as int) =~= message@.subrange(
            offset as int,
            offset + usable,
        ));
        assert(rest.subrange(usable as int, rest.len() as int) =~= message@.subrange(
            offset + usable,
            len as int,
        ));
        assert(byte_strings(pieces@) =~= before + seq![rest.subrange(0, usable as int)]);
        offset += usable;
    }
    let ghost before = byte_strings(pieces@);
    let ghost rest = message@.subrange(offset as int, len as int);
    pieces.push(take_bytes(message, offset, len));
    assert(byte_strings(pieces@) =~= before + seq![rest]);
    pieces
}

/// A message of which some fragments have arrived.
pub struct Reassembly {
    /// The identifier that the fragments share.
    pub message_id: u64,
    /// When the first fragment arrived.
    pub started_at: i64,
    /// One slot for each fragment of the message, filled as they arrive.
    pub slots: Vec<Option<Vec<u8>>>,
}

/// The mathematical content of a [`Reassembly`].
pub ghost struct ReassemblyView {
    pub message_id: u64,
    pub started_at: i64,
    pub slots: Seq<Option<Seq<u8>>>,
}

impl View for Reassembly {
    type V = ReassemblyView;

    open spec fn view(&self) -> ReassemblyView {
        ReassemblyView {
            message_id: self.message_id,
            started_at: self.started_at,
            slots: self.slots@.map_values(|slot: Option<Vec<u8>>| bytes_view(slot)),
        }
    }
}

/// Whether every fragment has arrived.
pub open spec fn spec_complete(slots: Seq<Option<Seq<u8>>>) -> bool {
    forall|i: int| 0 <= i < slots.len() ==> (#[trigger] slots[i]) is Some
}

/// The fragments that have arrived, in the order of their positions.
pub open spec fn spec_arrived(slots: Seq<Option<Seq<u8>>>) -> Seq<Seq<u8>> {
    slots.map_values(
        |slot: Option<Seq<u8>>|
            match slot {
                Some(bytes) => bytes,
                None => Seq::empty(),
            },
    )
}

/// The message that the slots spell out.
pub open spec fn spec_assemble(slots: Seq<Option<Seq<u8>>>) -> Seq<u8> {
    spec_arrived(slots).flatten()
}

/// The slots of a message of `count` fragments of which only the one at
/// `index` has arrived.
pub open spec fn spec_first_slots(count: u16, index: u16, payload: Seq<u8>) -> Seq<Option<Seq<u8>>> {
    Seq::new(
        count as nat,
        |i: int|
            if i == index {
                Some(payload)
            } else {
                None
            },
    )
}

/// The position of the first reassembly at or after `from` that has the
/// given message identifier; the length of the list where there is none.
pub open spec fn spec_find(pending: Seq<ReassemblyView>, message_id: u64, from: int) -> int
    decreases pending.len() - from,
{
    if from < 0 || from >= pending.len() {
        pending.len() as int
    } else if pending[from].message_id == message_id {
        from
    } else {
        spec_find(pending, message_id, from + 1)
    }
}

/// What [`Reassembler::accept`] makes of a fragment: the reassemblies that
/// are left pending, and what is handed to the caller.
///
/// A message of one fragment is released at once. A fragment of a longer
/// message fills its slot; when that was the last empty slot the message is
/// released and its reassembly dropped. A fragment that is already there is
/// ignored. A fragment is refused as malformed where it claims more
/// fragments than a message may have, or another count than its message's
/// earlier fragments did, and for want of room where a new message would
/// exceed the number of pending reassemblies.
pub open spec fn spec_accept(
    pending: Seq<ReassemblyView>,
    message_id: u64,
    index: u16,
    count: u16,
    payload: Seq<u8>,
    now: i64,
) -> (Seq<ReassemblyView>, Result<Option<Seq<u8>>, Error>) {
    if count > MAX_FRAGMENTS {
        (pending, Err(Error::MalformedPacket))
    } else if count == 1 {
        (pending, Ok(Some(payload)))
    } else {
        let at = spec_find(pending, message_id, 0);
        if at < pending.len() {
            let entry = pending[at];
            if entry.slots.len() != count {
                (pending, Err(Error::MalformedPacket))
            } else if entry.slots[index as int] is Some {
                (pending, Ok(None))
            } else {
                let slots = entry.slots.update(index as int, Some(payload));
                if spec_complete(slots) {
                    (pending.remove(at), Ok(Some(spec_assemble(slots))))
                } else {
                    (pending.update(at, ReassemblyView { slots, ..entry }), Ok(None))
                }
            }
        } else if pending.len() >= MAX_PENDING {
            (pending, Err(Error::ResourceExhausted))
        } else {
            (
                pending.push(
                    ReassemblyView {
                        message_id,
                        started_at: now,
                        slots: spec_first_slots(count, index, payload),
                    },
                ),
                Ok(None),
            )
        }
    }
}

/// The reassemblies that are younger than `max_age` at time `now`.
pub open spec fn spec_evict(pending: Seq<ReassemblyView>, now: i64, max_age: i64) -> Seq<
    ReassemblyView,
> {
    pending.filter(|entry: ReassemblyView| spec_elapsed(now, entry.started_at) < max_age)
}

/// The view of what a reassembler hands to the caller.
pub open spec fn released_view(released: Result<Option<Vec<u8>>, Error>) -> Result<
    Option<Seq<u8>>,
    Error,
> {
    match released {
        Ok(message) => Ok(bytes_view(message)),
        Err(e) => Err(e),
    }
}

/// Joining the first `n + 1` slots is joining the first `n` and appending
/// what the next one holds.
pub proof fn lemma_assemble_prefix(slots: Seq<Option<Seq<u8>>>, n: int)
    requires
        0 <= n < slots.len(),
    ensures
        spec_assemble(slots.subrange(0, n + 1)) == spec_assemble(slots.subrange(0, n))
            + spec_arrived(slots)[n],
{
    let shorter = spec_arrived(slots.subrange(0, n));
    let longer = spec_arrived(slots.subrange(0, n + 1));
    assert(longer =~= shorter.push(spec_arrived(slots)[n]));
    shorter.lemma_flatten_push(spec_arrived(slots)[n]);
}

/// Reassembly is lossless: when the slots of a reassembly hold
/// exactly the fragments of a message, whatever the order in which they
/// arrived, what is released is that message.
pub proof fn lemma_reassembly_is_lossless(
    message: Seq<u8>,
    usable: nat,
    slots: Seq<Option<Seq<u8>>>,
)
    requires
        usable > 0,
        slots.len() == spec_fragments(message, usable).len(),
        forall|i: int|
            0 <= i < slots.len() ==> #[trigger] slots[i] == Some(
                spec_fragments(message, usable)[i],
            ),
    ensures
        spec_complete(slots),
        spec_assemble(slots) == message,
{
    lemma_fragments_reassemble(message, usable);
    assert(spec_arrived(slots) =~= spec_fragments(message, usable));
}

/// Whether `order` names each of the positions `0` to `n - 1` exactly once:
/// an order in which the `n` fragments of a message may arrive.
pub open spec fn spec_arrangement(order: Seq<int>, n: nat) -> bool {
    &&& order.len() == n
    &&& forall|s: int| 0 <= s < n ==> 0 <= #[trigger] order[s] < n
    &&& forall|s: int, t: int| 0 <= s < t < n ==> #[trigger] order[s] != #[trigger] order[t]
    &&& forall|i: int| 0 <= i < n ==> spec_arrived_by(order, n, i)
}

/// Whether the fragment at position `i` is among the first `t` to arrive.
pub open spec fn spec_arrived_by(order: Seq<int>, t: nat, i: int) -> bool {
    exists|s: int| 0 <= s < t && #[trigger] order[s] == i
}

/// The slots of a message after the first `t` of its fragments arrived.
pub open spec fn spec_slots_after(pieces: Seq<Seq<u8>>, order: Seq<int>, t: nat) -> Seq<
    Option<Seq<u8>>,
> {
    Seq::new(
        pieces.len(),
        |i: int|
            if spec_arrived_by(order, t, i) {
                Some(pieces[i])
            } else {
                None
            },
    )
}

/// The reassemblies that are pending after the first `t` fragments of a
/// message arrived, in the order `order` and at the times `times`.
pub open spec fn spec_fed(
    start: Seq<ReassemblyView>,
    message_id: u64,
    pieces: Seq<Seq<u8>>,
    order: Seq<int>,
    times: Seq<i64>,
    t: nat,
) -> Seq<ReassemblyView>
    decreases t,
{
    if t == 0 {
        start
    } else {
        spec_accept(
            spec_fed(start, message_id, pieces, order, times, (t - 1) as nat),
            message_id,
            order[t - 1] as u16,
            pieces.len() as u16,
            pieces[order[t - 1]],
            times[t - 1],
        ).0
    }
}

/// What is handed to the caller when the `t`-th fragment arrives, counting
/// from one.
pub open spec fn spec_released(
    start: Seq<ReassemblyView>,
    message_id: u64,
    pieces: Seq<Seq<u8>>,
    order: Seq<int>,
    times: Seq<i64>,
    t: nat,
) -> Result<Option<Seq<u8>>, Error> {
    spec_accept(
        spec_fed(start, message_id, pieces, order, times, (t - 1) as nat),
        message_id,
        order[t - 1] as u16,
        pieces.len() as u16,
        pieces[order[t - 1]],
        times[t - 1],
    ).1
}

/// A reassembly that was added at the end of the list is found there, where
/// the list held none for the message before.
pub proof fn lemma_find_added(pending: Seq<ReassemblyView>, entry: ReassemblyView, from: int)
    requires
        0 <= from <= pending.len(),
        spec_find(pending, entry.message_id, from) == pending.len(),
    ensures
        spec_find(pending.push(entry), entry.message_id, from) == pending.len(),
    decreases pending.len() - from,
{
    if from < pending.len() {
        assert(pending.push(entry)[from] == pending[from]);
        lemma_find_added(pending, entry, from + 1);
    }
}

/// While fragments of a message of two or more are still missing, the
/// message is pending at the end of the list with the slots of those that
/// arrived filled, and nothing was handed out.
pub proof fn lemma_fed(
    start: Seq<ReassemblyView>,
    message_id: u64,
    pieces: Seq<Seq<u8>>,
    order: Seq<int>,
    times: Seq<i64>,
    t: nat,
)
    requires
        2 <= pieces.len() <= MAX_FRAGMENTS,
        spec_arrangement(order, pieces.len()),
        times.len() == pieces.len(),
        spec_find(start, message_id, 0) == start.len(),
        start.len() < MAX_PENDING,
        1 <= t < pieces.len(),
    ensures
        spec_fed(start, message_id, pieces, order, times, t) == start.push(
            ReassemblyView {
                message_id,
                started_at: times[0],
                slots: spec_slots_after(pieces, order, t),
            },
        ),
        spec_released(start, message_id, pieces, order, times, t) == Ok::<Option<Seq<u8>>, Error>(
            None,
        ),
    decreases t,
{
    let n = pieces.len();
    let index = order[t - 1];
    let slots = spec_slots_after(pieces, order, t);
    if t == 1 {
        assert(spec_fed(start, message_id, pieces, order, times, 0) == start);
        assert forall|i: int| 0 <= i < n implies (spec_arrived_by(order, 1, i) <==> i == index) by {
            if i == index {
                assert(order[0] == i);
            }
        }
        assert(spec_first_slots(n as u16, index as u16, pieces[index]) =~= slots);
    } else {
        lemma_fed(start, message_id, pieces, order, times, (t - 1) as nat);
        let earlier = spec_slots_after(pieces, order, (t - 1) as nat);
        let entry = ReassemblyView { message_id, started_at: times[0], slots: earlier };
        let pending = start.push(entry);
        lemma_find_added(start, entry, 0);
        assert(pending[start.len() as int] == entry);
        assert(!spec_arrived_by(order, (t - 1) as nat, index));
        assert forall|i: int| 0 <= i < n implies (spec_arrived_by(order, t, i) <==> (i == index
            || spec_arrived_by(order, (t - 1) as nat, i))) by {
            if i == index {
                assert(order[t - 1] == i);
            }
            if spec_arrived_by(order, (t - 1) as nat, i) {
                let s = choose|s: int| 0 <= s < t - 1 && #[trigger] order[s] == i;
                assert(order[s] == i);
            }
        }
        assert(earlier.update(index, Some(pieces[index])) =~= slots);
        let missing = order[n - 1];
        assert(!spec_arrived_by(order, t, missing));
        assert(slots[missing] is None);
        assert(!spec_complete(slots));
        assert(pending.update(start.len() as int, ReassemblyView { slots, ..entry }) =~= start.push(
            ReassemblyView { message_id, started_at: times[0], slots },
        ));
    }
}

/// Reassembly does not depend on the order of arrival. Whatever the order
/// in which the fragments of a message arrive, each exactly once, at a
/// reassembler that has room for the message: nothing is handed out before
/// the last fragment arrived, what is handed out then is the message, and
/// the reassembler is left as it was found.
pub proof fn lemma_any_order_reassembles(
    start: Seq<ReassemblyView>,
    message_id: u64,
    message: Seq<u8>,
    usable: nat,
    order: Seq<int>,
    times: Seq<i64>,
)
    requires
        usable > 0,
        2 <= spec_fragments(message, usable).len() <= MAX_FRAGMENTS,
        spec_arrangement(order, spec_fragments(message, usable).len()),
        times.len() == spec_fragments(message, usable).len(),
        spec_find(start, message_id, 0) == start.len(),
        start.len() < MAX_PENDING,
    ensures
        forall|t: nat|
            1 <= t < spec_fragments(message, usable).len() ==> #[trigger] spec_released(
                start,
                message_id,
                spec_fragments(message, usable),
                order,
                times,
                t,
            ) == Ok::<Option<Seq<u8>>, Error>(None),
        spec_released(
            start,
            message_id,
            spec_fragments(message, usable),
            order,
            times,
            spec_fragments(message, usable).len(),
        ) == Ok::<Option<Seq<u8>>, Error>(Some(message)),
        spec_fed(
            start,
            message_id,
            spec_fragments(message, usable),
            order,
            times,
            spec_fragments(message, usable).len(),
        ) == start,
{
    let pieces = spec_fragments(message, usable);
    let n = pieces.len();
    assert forall|t: nat| 1 <= t < n implies #[trigger] spec_released(
        start,
        message_id,
        pieces,
        order,
        times,
        t,
    ) == Ok::<Option<Seq<u8>>, Error>(None) by {
        lemma_fed(start, message_id, pieces, order, times, t);
    }
    lemma_fed(start, message_id, pieces, order, times, (n - 1) as nat);
    let index = order[n - 1];
    let earlier = spec_slots_after(pieces, order, (n - 1) as nat);
    let entry = ReassemblyView { message_id, started_at: times[0], slots: earlier };
    let pending = start.push(entry);
    lemma_find_added(start, entry, 0);
    assert(pending[start.len() as int] == entry);
    assert(!spec_arrived_by(order, (n - 1) as nat, index));
    let slots = earlier.update(index, Some(pieces[index]));
    assert forall|i: int| 0 <= i < n implies #[trigger] slots[i] == Some(pieces[i]) by {
        if i != index {
            assert(spec_arrived_by(order, n, i));
            let s = choose|s: int| 0 <= s < n && #[trigger] order[s] == i;
            assert(s < n - 1);
            assert(order[s] == i);
            assert(spec_arrived_by(order, (n - 1) as nat, i));
        }
    }
    lemma_reassembly_is_lossless(message, usable, slots);
    assert(pending.remove(start.len() as int) =~= start);
}

/// The bounded set of messages that a session is putting together.
pub struct Reassembler {
    pub pending: Vec<Reassembly>,
}

impl View for Reassembler {
    type V = Seq<ReassemblyView>;

    open spec fn view(&self) -> Seq<ReassemblyView> {
        self.pending@.map_values(|entry: Reassembly| entry@)
    }
}

impl Reassembler {
    /// A reassembler is well formed when it holds no more reassemblies than
    /// it may, each with a slot for every fragment of a message of at least
    /// two and at most `MAX_FRAGMENTS` fragments.
    pub open spec fn wf(&self) -> bool {
        &&& self.pending@.len() <= MAX_PENDING
        &&& forall|i: int|
            0 <= i < self.pending@.len() ==> 2 <= (#[trigger] self.pending@[i]).slots@.len()
                <= MAX_FRAGMENTS
    }

    /// A reassembler with nothing pending.
    pub fn new() -> (reassembler: Reassembler)
        ensures
            reassembler.wf(),
            reassembler@ == Seq::<ReassemblyView>::empty(),
    {
        let reassembler = Reassembler { pending: Vec::new() };
        assert(reassembler@ =~= Seq::<ReassemblyView>::empty());
        reassembler
    }

    /// The number of pending reassemblies.
    pub fn len(&self) -> (n: usize)
        ensures
            n == self@.len(),
    {
        self.pending.len()
    }

    /// The position of the reassembly of `message_id`, or the number of
    /// pending reassemblies where there is none.
    pub fn find(&self, message_id: u64) -> (at: usize)
        ensures
            at == spec_find(self@, message_id, 0),
            at <= self@.len(),
            at < self@.len() ==> self@[at as int].message_id == message_id,
    {
        let mut i: usize = 0;
        while i < self.pending.len()
            invariant
                i <= self.pending@.len(),
                self@.len() == self.pending@.len(),
                spec_find(self@, message_id, 0) == spec_find(self@, message_id, i as int),
            decreases self.pending@.len() - i,
        {
            if self.pending[i].message_id == message_id {
                return i;
            }
            i += 1;
        }
        i
    }

    /// Takes in one fragment of a message, and hands the message out when it
    /// was the last one missing.
    pub fn accept(
        &mut self,
        message_id: u64,
        index: u16,
        count: u16,
        payload: Vec<u8>,
        now: i64,
    ) -> (released: Result<Option<Vec<u8>>, Error>)
        requires
            old(self).wf(),
            index < count,
        ensures
            final(self).wf(),
            (final(self)@, released_view(released)) == spec_accept(
                old(self)@,
                message_id,
                index,
                count,
                payload@,
                now,
            ),
    {
        if count > MAX_FRAGMENTS {
            return Err(Error::MalformedPacket);
        }
        if count == 1 {
            return Ok(Some(payload));
        }
        let at = self.find(message_id);
        if at < self.pending.len() {
            if self.pending[at].slots.len() != count as usize {
                return Err(Error::MalformedPacket);
            }
            if self.pending[at].slots[index as usize].is_some() {
                return Ok(None);
            }
            let ghost before = self@;
            let mut entry = self.pending.remove(at);
            assert(self@ =~= before.remove(at as int));
            let ghost payload_view = payload@;
            entry.slots.set(index as usize, Some(payload));
            let ghost slots = before[at as int].slots.update(index as int, Some(payload_view));
            assert(entry@.slots =~= slots);
            if slots_complete(&entry.slots) {
                Ok(Some(assemble(&entry.slots)))
            } else {
                let ghost entry_view = entry@;
                self.pending.insert(at, entry);
                assert(self@ =~= before.update(at as int, entry_view));
                Ok(None)
            }
        } else if self.pending.len() >= MAX_PENDING {
            Err(Error::ResourceExhausted)
        } else {
            let ghost before = self@;
            let ghost payload_view = payload@;
            let mut slots: Vec<Option<Vec<u8>>> = Vec::new();
            let mut i: u16 = 0;
            while i < count
                invariant
                    i <= count,
                    slots@.len() == i,
                    forall|j: int| 0 <= j < i ==> (#[trigger] slots@[j]) is None,
                decreases count - i,
            {
                slots.push(None);
                i += 1;
            }
            slots.set(index as usize, Some(payload));
            let entry = Reassembly { message_id, started_at: now, slots };
            assert(entry@.slots =~= spec_first_slots(count, index, payload_view));
            let ghost entry_view = entry@;
            self.pending.push(entry);
            assert(self@ =~= before.push(entry_view));
            Ok(None)
        }
    }

    /// Drops every reassembly that is `max_age` milliseconds old or older,
    /// and says how many were dropped.
    pub fn evict(&mut self, now: i64, max_age: i64) -> (dropped: usize)
        requires
            old(self).wf(),
        ensures
            final(self).wf(),
            final(self)@ == spec_evict(old(self)@, now, max_age),
            dropped == old(self)@.len() - final(self)@.len(),
    {
        let ghost before = self@;
        let ghost keep = |entry: ReassemblyView| spec_elapsed(now, entry.started_at) < max_age;
        let mut i: usize = 0;
        let mut dropped: usize = 0;
        assert(before.subrange(0, 0).filter(keep) =~= Seq::<ReassemblyView>::empty()) by {
            reveal(Seq::filter);
        }
        assert(self@ =~= before.subrange(0, 0).filter(keep) + before.subrange(
            0,
            before.len() as int,
        ));
        while i < self.pending.len()
            invariant
                self.wf(),
                before.len() <= MAX_PENDING,
                keep == |entry: ReassemblyView| spec_elapsed(now, entry.started_at) < max_age,
                i + dropped <= before.len(),
                i <= self.pending@.len(),
                self.pending@.len() + dropped == before.len(),
                before.subrange(0, i + dropped).filter(keep).len() == i,
                self@ == before.subrange(0, i + dropped).filter(keep) + before.subrange(
                    i + dropped,
                    before.len() as int,
                ),
            decreases self.pending@.len() - i,
        {
            let ghost done = before.subrange(0, i + dropped);
            let ghost next = before.subrange(0, i + dropped + 1);
            let ghost current = self@;
            assert(next.drop_last() =~= done);
            assert(next.last() == before[i + dropped]);
            assert(current[i as int] == before[i + dropped]);
            assert(current[i as int] == self.pending@[i as int]@);
            proof {
                reveal(Seq::filter);
            }
            if elapsed(now, self.pending[i].started_at) >= max_age {
                self.pending.remove(i);
                assert(self@ =~= current.remove(i as int));
                assert(next.filter(keep) == done.filter(keep));
                assert(current.remove(i as int) =~= done.filter(keep) + before.subrange(
                    i + dropped + 1,
                    before.len() as int,
                ));
                assert(self@ =~= next.filter(keep) + before.subrange(
                    i + dropped + 1,
                    before.len() as int,
                ));
                dropped += 1;
            } else {
                assert(next.filter(keep) == done.filter(keep).push(before[i + dropped]));
                assert(self@ =~= next.filter(keep) + before.subrange(
                    i + dropped + 1,
                    before.len() as int,
                ));
                i += 1;
            }
        }
        assert(before.subrange(0, before.len() as int) =~= before);
        assert(self@ =~= before.filter(keep));
        dropped
    }
}

/// Whether every slot is filled.
pub fn slots_complete(slots: &Vec<Option<Vec<u8>>>) -> (complete: bool)
    ensures
        complete == spec_complete(slots@.map_values(|slot: Option<Vec<u8>>| bytes_view(slot))),
{
    let ghost view = slots@.map_values(|slot: Option<Vec<u8>>| bytes_view(slot));
    let mut i: usize = 0;
    while i < slots.len()
        invariant
            i <= slots@.len(),
            view == slots@.map_values(|slot: Option<Vec<u8>>| bytes_view(slot)),
            forall|j: int| 0 <= j < i ==> (#[trigger] view[j]) is Some,
        decreases slots@.len() - i,
    {
        if slots[i].is_none() {
            assert(view[i as int] is None);
            return false;
        }
        i += 1;
    }
    true
}

/// Joins what the slots hold, in order.
pub fn assemble(slots: &Vec<Option<Vec<u8>>>) -> (message: Vec<u8>)
    ensures
        message@ == spec_assemble(slots@.map_values(|slot: Option<Vec<u8>>| bytes_view(slot))),
{
    let ghost view = slots@.map_values(|slot: Option<Vec<u8>>| bytes_view(slot));
    let mut message: Vec<u8> = Vec::new();
    let mut i: usize = 0;
    assert(spec_arrived(view.subrange(0, 0)) =~= Seq::<Seq<u8>>::empty());
    while i < slots.len()
        invariant
            i <= slots@.len(),
            view == slots@.map_values(|slot: Option<Vec<u8>>| bytes_view(slot)),
            message@ == spec_assemble(view.subrange(0, i as int)),
        decreases slots@.len() - i,
    {
        proof {
            lemma_assemble_prefix(view, i as int);
        }
        match &slots[i] {
            Some(bytes) => {
                put_bytes(&mut message, bytes.as_slice());
            },
            None => {
                assert(message@ + Seq::<u8>::empty() =~= message@);
            },
        }
        i += 1;
    }
    assert(view.subrange(0, i as int) =~= view);
    message
}

} // verus!

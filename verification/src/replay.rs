//! The replay window: a bounded record of the counters a key generation has
//! accepted, with the proof that no counter is ever accepted twice.
//!
//! The window follows the highest counter accepted so far and remembers, for
//! each of the `WINDOW_SIZE` counters up to it, whether that counter was
//! accepted. Counters further behind are refused without being looked up.

use vstd::prelude::*;

verus! {

/// How far behind the highest accepted counter a datagram may arrive.
pub const WINDOW_SIZE: u64 = 64;

/// The slot that records counter `c`.
pub open spec fn slot_of(c: u64) -> int {
    (c % WINDOW_SIZE) as int
}

/// Two different counters less than a window apart never share a slot.
pub proof fn lemma_distinct_slots(a: u64, b: u64)
    requires
        a != b,
        a - b < WINDOW_SIZE,
        b - a < WINDOW_SIZE,
    ensures
        slot_of(a) != slot_of(b),
{
}

/// The receive side of one key generation's counters.
pub struct ReplayWindow {
    /// The highest counter accepted so far; zero before the first.
    pub highest: u64,
    /// For each counter of the window, whether it was accepted.
    pub slots: Vec<bool>,
}

impl ReplayWindow {
    /// A window is well formed when it has one slot for each counter it spans.
    pub open spec fn wf(&self) -> bool {
        self.slots@.len() == WINDOW_SIZE
    }

    /// Whether the window refuses counter `c`: it was accepted before, or it
    /// lies a whole window or more behind the highest accepted counter.
    pub open spec fn rejects(&self, c: u64) -> bool {
        c <= self.highest && (self.highest - c >= WINDOW_SIZE || self.slots@[slot_of(c)])
    }

    /// Whether `post` is what accepting counter `c` makes of `pre`: `c` was
    /// not refused, the window moved up to it, and it now refuses `c`,
    /// everything it refused before, and everything that fell out behind.
    pub open spec fn accepted_step(pre: ReplayWindow, c: u64, post: ReplayWindow) -> bool {
        &&& pre.wf()
        &&& post.wf()
        &&& !pre.rejects(c)
        &&& post.highest == if c > pre.highest {
            c
        } else {
            pre.highest
        }
        &&& forall|d: u64| #[trigger]
            post.rejects(d) <==> (d == c || pre.rejects(d) || d + WINDOW_SIZE <= c)
    }

    /// A window that has accepted nothing. Counter zero is never accepted:
    /// senders start at one.
    pub fn new() -> (window: ReplayWindow)
        ensures
            window.wf(),
            window.highest == 0,
            forall|c: u64| #[trigger] window.rejects(c) <==> c == 0,
    {
        let mut slots: Vec<bool> = Vec::new();
        let mut i: u64 = 0;
        while i < WINDOW_SIZE
            invariant
                i <= WINDOW_SIZE,
                slots@.len() == i,
                forall|j: int| 0 <= j < i ==> slots@[j] == (j == 0),
            decreases WINDOW_SIZE - i,
        {
            slots.push(i == 0);
            i += 1;
        }
        ReplayWindow { highest: 0, slots }
    }

    /// Whether counter `c` would be refused.
    pub fn is_replay(&self, c: u64) -> (refused: bool)
        requires
            self.wf(),
        ensures
            refused == self.rejects(c),
    {
        if c > self.highest {
            false
        } else if self.highest - c >= WINDOW_SIZE {
            true
        } else {
            self.slots[(c % WINDOW_SIZE) as usize]
        }
    }

    /// Records that counter `c` was accepted.
    pub fn accept(&mut self, c: u64)
        requires
            old(self).wf(),
            !old(self).rejects(c),
        ensures
            Self::accepted_step(*old(self), c, *final(self)),
    {
        let ghost pre = *self;
        if c > self.highest {
            if c - self.highest >= WINDOW_SIZE {
                let mut i: usize = 0;
                while i < WINDOW_SIZE as usize
                    invariant
                        i <= WINDOW_SIZE,
                        self.slots@.len() == WINDOW_SIZE,
                        self.highest == pre.highest,
                        forall|j: int| 0 <= j < i ==> self.slots@[j] == false,
                    decreases WINDOW_SIZE - i,
                {
                    self.slots.set(i, false);
                    i += 1;
                }
            } else {
                let mut x: u64 = self.highest + 1;
                while x < c
                    invariant
                        pre.highest < x <= c,
                        c - pre.highest < WINDOW_SIZE,
                        pre.wf(),
                        self.slots@.len() == WINDOW_SIZE,
                        self.highest == pre.highest,
                        forall|d: u64|
                            d < x && c - d < WINDOW_SIZE ==> self.slots@[#[trigger] slot_of(d)]
                                == (d <= pre.highest && pre.slots@[slot_of(d)]),
                    decreases c - x,
                {
                    let ghost before = self.slots@;
                    self.slots.set((x % WINDOW_SIZE) as usize, false);
                    assert forall|d: u64| d < x + 1 && c - d < WINDOW_SIZE implies self.slots@[#[trigger] slot_of(
                        d,
                    )] == (d <= pre.highest && pre.slots@[slot_of(d)]) by {
                        if d != x {
                            lemma_distinct_slots(d, x);
                            assert(self.slots@[slot_of(d)] == before[slot_of(d)]);
                        }
                    }
                    x += 1;
                }
            }
            let ghost before = self.slots@;
            self.slots.set((c % WINDOW_SIZE) as usize, true);
            self.highest = c;
            assert forall|d: u64| #[trigger]
                self.rejects(d) <==> (d == c || pre.rejects(d) || d + WINDOW_SIZE <= c) by {
                if d < c && c - d < WINDOW_SIZE {
                    lemma_distinct_slots(d, c);
                    assert(self.slots@[slot_of(d)] == before[slot_of(d)]);
                    assert(before[slot_of(d)] == (d <= pre.highest && pre.slots@[slot_of(d)]));
                }
            }
        } else {
            let ghost before = self.slots@;
            self.slots.set((c % WINDOW_SIZE) as usize, true);
            assert forall|d: u64| #[trigger]
                self.rejects(d) <==> (d == c || pre.rejects(d) || d + WINDOW_SIZE <= c) by {
                if d != c && d <= pre.highest && pre.highest - d < WINDOW_SIZE {
                    lemma_distinct_slots(d, c);
                    assert(self.slots@[slot_of(d)] == before[slot_of(d)]);
                }
            }
        }
    }

    /// A copy of this window.
    pub fn duplicate(&self) -> (copy: ReplayWindow)
        requires
            self.wf(),
        ensures
            copy.wf(),
            copy.highest == self.highest,
            copy.slots@ == self.slots@,
    {
        let mut slots: Vec<bool> = Vec::new();
        let mut i: usize = 0;
        while i < self.slots.len()
            invariant
                i <= self.slots@.len(),
                slots@ == self.slots@.subrange(0, i as int),
            decreases self.slots@.len() - i,
        {
            slots.push(self.slots[i]);
            assert(slots@ =~= self.slots@.subrange(0, i + 1));
            i += 1;
        }
        assert(slots@ =~= self.slots@);
        ReplayWindow { highest: self.highest, slots }
    }
}

/// What a window refuses, it refuses after every later acceptance.
pub proof fn lemma_rejection_is_permanent(
    states: Seq<ReplayWindow>,
    counters: Seq<u64>,
    from: int,
    to: int,
    c: u64,
)
    requires
        states.len() == counters.len() + 1,
        forall|k: int|
            0 <= k < counters.len() ==> ReplayWindow::accepted_step(
                #[trigger] states[k],
                counters[k],
                states[k + 1],
            ),
        0 <= from <= to <= counters.len(),
        states[from].rejects(c),
    ensures
        states[to].rejects(c),
    decreases to - from,
{
    if from < to {
        lemma_rejection_is_permanent(states, counters, from, to - 1, c);
        assert(ReplayWindow::accepted_step(states[to - 1], counters[to - 1], states[to - 1 + 1]));
    }
}

/// Replay rejection is total: along any run of a window, whatever the order
/// in which counters arrive, no counter is accepted twice.
pub proof fn lemma_no_counter_accepted_twice(
    states: Seq<ReplayWindow>,
    counters: Seq<u64>,
    i: int,
    j: int,
)
    requires
        states.len() == counters.len() + 1,
        forall|k: int|
            0 <= k < counters.len() ==> ReplayWindow::accepted_step(
                #[trigger] states[k],
                counters[k],
                states[k + 1],
            ),
        0 <= i < j < counters.len(),
    ensures
        counters[i] != counters[j],
{
    assert(ReplayWindow::accepted_step(states[i], counters[i], states[i + 1]));
    assert(states[i + 1].rejects(counters[i]));
    lemma_rejection_is_permanent(states, counters, i + 1, j, counters[i]);
    assert(ReplayWindow::accepted_step(states[j], counters[j], states[j + 1]));
}

} // verus!

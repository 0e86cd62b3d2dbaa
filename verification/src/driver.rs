//! What an event loop needs to decide while it drives a context over an
//! unreliable link: when the next maintenance sweep is due, whether a
//! datagram gets through, how much was transferred, and what is worth
//! telling the operator. The loop itself, with its clock and its queues,
//! belongs to the embedding application.

use vstd::prelude::*;

use crate::clock::after;
use crate::clock::spec_after;
use crate::error::Error;

verus! {

/// Whether a datagram gets through a link that lets pass `success_rate`
/// out of every `u32::MAX` datagrams, as decided by a random draw of which
/// the low 32 bits count.
pub open spec fn spec_delivers(draw: u64, success_rate: u32) -> bool {
    draw % 0x1_0000_0000 <= success_rate
}

/// Decides whether a datagram gets through.
pub fn delivers(draw: u64, success_rate: u32) -> (through: bool)
    ensures
        through == spec_delivers(draw, success_rate),
        success_rate == u32::MAX ==> through,
{
    draw % 0x1_0000_0000 <= success_rate as u64
}

/// The length of a message between `least`, inclusive, and `available`,
/// exclusive, as chosen by a random draw.
pub open spec fn spec_message_length(draw: u64, least: usize, available: usize) -> int {
    least + (draw as int) % (available - least)
}

/// Chooses the length of the next message to send.
pub fn message_length(draw: u64, least: usize, available: usize) -> (len: usize)
    requires
        least < available,
    ensures
        len == spec_message_length(draw, least, available),
        least <= len < available,
{
    let span: u64 = (available - least) as u64;
    least + (draw % span) as usize
}

/// When the next maintenance sweep is due.
pub struct Pace {
    /// The time of the next sweep.
    pub next_service: i64,
}

impl Pace {
    /// A pace whose first sweep is due `wait` milliseconds after `now`.
    pub fn starting(now: i64, wait: i64) -> (pace: Pace)
        ensures
            pace.next_service == spec_after(now, wait),
    {
        Pace { next_service: after(now, wait) }
    }

    /// Whether a sweep is due at time `now`.
    pub fn due(&self, now: i64) -> (is_due: bool)
        ensures
            is_due == (now >= self.next_service),
    {
        now >= self.next_service
    }

    /// Notes that a sweep was made at time `now` and asked for the next
    /// one after `wait` milliseconds.
    pub fn swept(&mut self, now: i64, wait: i64)
        ensures
            final(self).next_service == spec_after(now, wait),
    {
        self.next_service = after(now, wait);
    }
}

/// Tells a new key generation from one that was reported already.
pub struct KeyWatch {
    /// The highest generation seen.
    pub last: u64,
}

impl KeyWatch {
    /// A watch that has seen no key.
    pub fn new() -> (watch: KeyWatch)
        ensures
            watch.last == 0,
    {
        KeyWatch { last: 0 }
    }

    /// Takes note of the generation in use, and says whether it is new.
    pub fn observe(&mut self, generation: u64) -> (is_new: bool)
        ensures
            is_new == (generation > old(self).last),
            final(self).last == if generation > old(self).last {
                generation
            } else {
                old(self).last
            },
    {
        if generation > self.last {
            self.last = generation;
            true
        } else {
            false
        }
    }
}

/// Keeps a run of the same failure from being reported over and over.
pub struct ErrorWatch {
    /// The failure reported last.
    pub last: Error,
}

impl ErrorWatch {
    /// A watch that takes `first` for reported.
    pub fn new(first: Error) -> (watch: ErrorWatch)
        ensures
            watch.last == first,
    {
        ErrorWatch { last: first }
    }

    /// Takes note of a failure, and says whether it differs from the one
    /// before and so is worth reporting.
    pub fn observe(&mut self, failure: Error) -> (is_new: bool)
        ensures
            is_new == (failure != old(self).last),
            final(self).last == failure,
    {
        let is_new = failure != self.last;
        self.last = failure;
        is_new
    }
}

/// Adds up what was transferred between two reports.
pub struct Meter {
    /// The bytes transferred since the last report.
    pub transferred: u64,
    /// The time of the last report.
    pub since: i64,
}

/// The interval between two reports of the meter, in milliseconds.
pub const METER_INTERVAL_MS: i64 = 1000;

impl Meter {
    /// A meter that starts at time `now`.
    pub fn starting(now: i64) -> (meter: Meter)
        ensures
            meter.transferred == 0,
            meter.since == now,
    {
        Meter { transferred: 0, since: now }
    }

    /// The count after a message of `len` bytes was received and sent
    /// back: twice its length more, and no more than the counter holds.
    pub open spec fn spec_echoed(transferred: u64, len: usize) -> u64 {
        if transferred + 2 * len > u64::MAX {
            u64::MAX
        } else {
            (transferred + 2 * len) as u64
        }
    }

    /// Counts a message that was received and sent back.
    pub fn echoed(&mut self, len: usize)
        ensures
            final(self).transferred == Self::spec_echoed(old(self).transferred, len),
            final(self).since == old(self).since,
    {
        let once: u64 = len as u64;
        self.transferred = self.transferred.saturating_add(once).saturating_add(once);
    }

    /// Reads the meter at time `now`. Once the interval has passed since
    /// the last report, the result is the number of bytes transferred and
    /// the milliseconds they took, and the meter starts over; bytes are
    /// reported only where there were any.
    pub fn read(&mut self, now: i64) -> (reading: Option<(u64, i64)>)
        ensures
            crate::clock::spec_elapsed(now, old(self).since) < METER_INTERVAL_MS ==> reading is None
                && *final(self) == *old(self),
            crate::clock::spec_elapsed(now, old(self).since) >= METER_INTERVAL_MS ==> {
                &&& final(self).transferred == 0
                &&& final(self).since == now
                &&& reading == if old(self).transferred > 0 {
                    Some((old(self).transferred, crate::clock::spec_elapsed(now, old(self).since)))
                } else {
                    None
                }
            },
    {
        let taken = crate::clock::elapsed(now, self.since);
        if taken >= METER_INTERVAL_MS {
            let transferred = self.transferred;
            self.since = now;
            self.transferred = 0;
            if transferred > 0 {
                Some((transferred, taken))
            } else {
                None
            }
        } else {
            None
        }
    }
}

} // verus!

//! Delays that are set anew: of all timers that were started, only the last one counts.

use vstd::prelude::*;

verus! {

/// A delay. Each timer that is started for it has a number.
#[derive(Clone, Copy, Debug, PartialEq, Eq, Structural)]
pub struct Delay {
    /// The number of the timer that was started last.
    pub latest: u64,
    /// That timer has not elapsed yet.
    pub running: bool,
}

/// The number after `number`, from the largest on to zero.
pub open spec fn next_number(number: u64) -> u64 {
    if number == u64::MAX {
        0
    } else {
        (number + 1) as u64
    }
}

impl Delay {
    /// No timer was started.
    pub open spec fn idle() -> Delay {
        Delay { latest: 0, running: false }
    }

    /// The timer with this number counts: it is the last one, and has not elapsed yet.
    pub open spec fn awaits(self, number: u64) -> bool {
        self.running && number == self.latest
    }

    /// One more timer was started. It takes the place of the one before.
    pub open spec fn started(self) -> Delay {
        Delay { latest: next_number(self.latest), running: true }
    }

    /// The timer with this number has elapsed.
    pub open spec fn elapsed(self, number: u64) -> Delay {
        if self.awaits(number) {
            Delay { running: false, ..self }
        } else {
            self
        }
    }

    /// As many more timers were started, one after the other.
    pub open spec fn started_times(self, times: nat) -> Delay
        decreases times,
    {
        if times == 0 {
            self
        } else {
            self.started_times((times - 1) as nat).started()
        }
    }

    /// A delay without a timer.
    pub fn new() -> (delay: Delay)
        ensures
            delay == Delay::idle(),
    {
        Delay { latest: 0, running: false }
    }

    /// Starts a timer, and returns its number.
    pub fn start(&mut self) -> (number: u64)
        ensures
            *final(self) == old(self).started(),
            number == final(self).latest,
    {
        self.latest = if self.latest == u64::MAX {
            0
        } else {
            self.latest + 1
        };
        self.running = true;
        self.latest
    }

    /// Notes that a timer has elapsed. Tells whether it counts.
    pub fn elapse(&mut self, number: u64) -> (counts: bool)
        ensures
            *final(self) == old(self).elapsed(number),
            counts == old(self).awaits(number),
    {
        if self.running && number == self.latest {
            self.running = false;
            true
        } else {
            false
        }
    }
}

proof fn lemma_number_after(delay: Delay, times: nat)
    ensures
        delay.started_times(times).latest == (delay.latest + times) % 0x1_0000_0000_0000_0000,
    decreases times,
{
    if times > 0 {
        lemma_number_after(delay, (times - 1) as nat);
    }
}

/// Of a burst of timers the last one counts and no other, and it counts once.
pub proof fn only_the_last_timer_counts(delay: Delay, times: nat, which: nat)
    requires
        1 <= which <= times <= u64::MAX,
    ensures
        ({
            let number = delay.started_times(which).latest;
            let burst = delay.started_times(times);
            &&& burst.awaits(number) == (which == times)
            &&& which < times ==> burst.elapsed(number) == burst
            &&& !burst.elapsed(number).awaits(number)
        }),
{
    lemma_number_after(delay, times);
    lemma_number_after(delay, which);
    assert(delay.started_times(times).running);
}

/// A timer that counts ends the delay when it elapses, and one that does not changes nothing. After
/// a start one timer counts, and none did before the first start.
pub proof fn timers_that_count(delay: Delay, number: u64, other: u64)
    ensures
        delay.awaits(number) && delay.awaits(other) ==> number == other,
        !delay.awaits(number) ==> delay.elapsed(number) == delay,
        delay.awaits(number) ==> !delay.elapsed(number).awaits(other),
        delay.awaits(number) ==> delay.elapsed(number).latest == delay.latest,
        delay.started().awaits(delay.started().latest),
        !delay.started().awaits(delay.latest),
        !Delay::idle().awaits(number),
{
}

} // verus!

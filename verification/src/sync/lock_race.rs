//! Any number of racers adding to one counter, each under the lock.
//!
//! A racer takes the lock, reads the counter, writes back what it read plus
//! its own amount, and lets the lock go. The read and the write are two
//! steps, so that without the lock an update could be lost. The model
//! interleaves the racers' steps in an arbitrary order and moves each racer
//! on by the decisions of [`LockPhase`]. The laws hold after every schedule.
//!
//! [`Adder`] is such a racer on a real [`Mutex`], and [`interleave`] takes
//! the steps of real racers in a given order. It is proved against the
//! model: what the laws say of every schedule holds of every run of it.

use vstd::prelude::*;
use crate::sync::mutex::LockCall;
use crate::sync::mutex::LockPhase;
use crate::sync::mutex::Mutex;

verus! {

/// One racer.
pub struct Racer {
    /// Where the racer stands with the lock.
    pub phase: LockPhase,
    /// The counter value that it read through its guard, once it has.
    pub read: Option<int>,
    /// Whether it has written the counter.
    pub wrote: bool,
    /// What it adds to the counter.
    pub amount: int,
}

impl Racer {
    /// The racer after its next atomic step, taken with the flag at `locked`
    /// and the counter at `counter`: a swap while it is acquiring, then
    /// under the lock the read of the counter, the write, and the release.
    pub open spec fn after_step(self, locked: bool, counter: int) -> Racer {
        match self.phase {
            LockPhase::Acquiring => Racer { phase: self.phase.after_swap(locked), ..self },
            LockPhase::Holding => if self.read is None {
                Racer { read: Some(counter), ..self }
            } else if !self.wrote {
                Racer { wrote: true, ..self }
            } else {
                Racer { phase: LockPhase::Released, ..self }
            },
            LockPhase::Released => self,
        }
    }

    /// The flag after the racer's next step: a swap sets it, the release
    /// clears it, and no other step writes it.
    pub open spec fn flag_after_step(self, locked: bool) -> bool {
        match self.phase {
            LockPhase::Acquiring => true,
            LockPhase::Holding => if self.read is Some && self.wrote {
                false
            } else {
                locked
            },
            LockPhase::Released => locked,
        }
    }

    /// The counter after the racer's next step: only the write changes it,
    /// to what the racer has read plus its amount.
    pub open spec fn counter_after_step(self, counter: int) -> int {
        if self.phase is Holding && self.read is Some && !self.wrote {
            self.read->0 + self.amount
        } else {
            counter
        }
    }
}

/// The lock flag, the counter behind it, and the racers.
pub struct LockRace {
    /// The atomic flag.
    pub locked: bool,
    /// The protected counter.
    pub counter: int,
    /// The value of the counter before the race.
    pub base: int,
    /// The racer that holds the lock.
    pub holder: Option<int>,
    /// The racers.
    pub racers: Seq<Racer>,
}

/// The sum of `amounts`.
pub open spec fn sum(amounts: Seq<int>) -> int
    decreases amounts.len(),
{
    if amounts.len() == 0 {
        0
    } else {
        sum(amounts.drop_last()) + amounts.last()
    }
}

/// The sum of the amounts of the racers that have written.
pub open spec fn written(racers: Seq<Racer>) -> int
    decreases racers.len(),
{
    if racers.len() == 0 {
        0
    } else {
        written(racers.drop_last()) + if racers.last().wrote {
            racers.last().amount
        } else {
            0
        }
    }
}

/// Replacing racer `i` changes the sum of what is written by the difference
/// between what the old and the new racer contribute.
pub proof fn lemma_written_update(racers: Seq<Racer>, i: int, racer: Racer)
    requires
        0 <= i < racers.len(),
    ensures
        written(racers.update(i, racer)) == written(racers) - (if racers[i].wrote {
            racers[i].amount
        } else {
            0
        }) + (if racer.wrote {
            racer.amount
        } else {
            0
        }),
    decreases racers.len(),
{
    let updated = racers.update(i, racer);
    if i == racers.len() - 1 {
        assert(updated.drop_last() =~= racers.drop_last());
    } else {
        assert(updated.drop_last() =~= racers.drop_last().update(i, racer));
        lemma_written_update(racers.drop_last(), i, racer);
    }
}

/// Where every racer has written, what is written is the sum of all
/// amounts.
pub proof fn lemma_written_is_sum(racers: Seq<Racer>, amounts: Seq<int>)
    requires
        racers.len() == amounts.len(),
        forall|i: int| 0 <= i < racers.len() ==> (#[trigger] racers[i]).wrote,
        forall|i: int| 0 <= i < racers.len() ==> (#[trigger] racers[i]).amount == amounts[i],
    ensures
        written(racers) == sum(amounts),
    decreases racers.len(),
{
    if racers.len() > 0 {
        lemma_written_is_sum(racers.drop_last(), amounts.drop_last());
    }
}

impl LockRace {
    /// A free lock in front of a counter at `base`, and racers that are
    /// about to call `lock`, one for each of `amounts`.
    pub open spec fn start(base: int, amounts: Seq<int>) -> Self {
        LockRace {
            locked: false,
            counter: base,
            base,
            holder: None,
            racers: Seq::new(
                amounts.len(),
                |i: int|
                    Racer {
                        phase: LockPhase::Acquiring,
                        read: None,
                        wrote: false,
                        amount: amounts[i],
                    },
            ),
        }
    }

    /// The state after racer `i` has taken its next atomic step. A turn of
    /// somebody who is not there, or who is done, changes nothing.
    pub open spec fn step(self, i: int) -> Self {
        if 0 <= i < self.racers.len() {
            let me = self.racers[i];
            LockRace {
                locked: me.flag_after_step(self.locked),
                counter: me.counter_after_step(self.counter),
                holder: if me.phase is Acquiring && !self.locked {
                    Some(i)
                } else if me.phase is Holding && me.read is Some && me.wrote {
                    None
                } else {
                    self.holder
                },
                racers: self.racers.update(i, me.after_step(self.locked, self.counter)),
                ..self
            }
        } else {
            self
        }
    }

    /// The state after the turns of `schedule`, taken in order.
    pub open spec fn run(self, schedule: Seq<int>) -> Self
        decreases schedule.len(),
    {
        if schedule.len() == 0 {
            self
        } else {
            self.run(schedule.drop_last()).step(schedule.last())
        }
    }

    /// What holds of the lock, the counter and the racers at every moment.
    pub open spec fn inv(self) -> bool {
        &&& self.locked <==> self.holder is Some
        &&& self.holder matches Some(h) ==> {
            &&& 0 <= h < self.racers.len()
            &&& self.racers[h].phase is Holding
            &&& self.racers[h].read is Some && !self.racers[h].wrote ==> self.racers[h].read
                == Some(self.counter)
        }
        &&& forall|i: int|
            0 <= i < self.racers.len() && (#[trigger] self.racers[i].phase) is Holding
                ==> self.holder == Some(i)
        &&& forall|i: int|
            0 <= i < self.racers.len() ==> {
                let racer = #[trigger] self.racers[i];
                &&& racer.phase is Acquiring ==> racer.read is None && !racer.wrote
                &&& racer.phase is Released ==> racer.wrote
                &&& racer.wrote ==> racer.read is Some
            }
        &&& self.counter == self.base + written(self.racers)
    }

    /// A step keeps the invariant.
    pub proof fn lemma_step_keeps_inv(self, i: int)
        requires
            self.inv(),
        ensures
            self.step(i).inv(),
            self.step(i).base == self.base,
            self.step(i).racers.len() == self.racers.len(),
            forall|j: int|
                0 <= j < self.racers.len() ==> (#[trigger] self.step(i).racers[j]).amount
                    == self.racers[j].amount,
    {
        if 0 <= i < self.racers.len() {
            lemma_written_update(self.racers, i, self.step(i).racers[i]);
        }
    }

    /// The invariant holds after every schedule, and no step changes what a
    /// racer is to add.
    pub proof fn lemma_run_keeps_inv(base: int, amounts: Seq<int>, schedule: Seq<int>)
        ensures
            Self::start(base, amounts).run(schedule).inv(),
            Self::start(base, amounts).run(schedule).base == base,
            Self::start(base, amounts).run(schedule).racers.len() == amounts.len(),
            forall|j: int|
                0 <= j < amounts.len() ==> (#[trigger] Self::start(base, amounts).run(
                    schedule,
                ).racers[j]).amount == amounts[j],
        decreases schedule.len(),
    {
        let first = Self::start(base, amounts);
        if schedule.len() == 0 {
            Self::lemma_nothing_written_at_start(first.racers);
        } else {
            Self::lemma_run_keeps_inv(base, amounts, schedule.drop_last());
            first.run(schedule.drop_last()).lemma_step_keeps_inv(schedule.last());
        }
    }

    /// Mutual exclusion: however the steps interleave, two racers never
    /// hold the lock at the same time.
    pub proof fn lemma_one_holder(base: int, amounts: Seq<int>, schedule: Seq<int>, i: int, j: int)
        requires
            0 <= i < amounts.len(),
            0 <= j < amounts.len(),
            Self::start(base, amounts).run(schedule).racers[i].phase is Holding,
            Self::start(base, amounts).run(schedule).racers[j].phase is Holding,
        ensures
            i == j,
            Self::start(base, amounts).run(schedule).locked,
    {
        Self::lemma_run_keeps_inv(base, amounts, schedule);
    }

    /// No update is lost: however the steps interleave, the counter is at
    /// every moment its first value plus the amounts of the racers that have
    /// written, and when every racer has let its guard go it is the first
    /// value plus the sum of all amounts.
    pub proof fn lemma_no_lost_update(base: int, amounts: Seq<int>, schedule: Seq<int>)
        ensures
            Self::start(base, amounts).run(schedule).counter == base + written(
                Self::start(base, amounts).run(schedule).racers,
            ),
            (forall|i: int|
                0 <= i < amounts.len() ==> (#[trigger] Self::start(base, amounts).run(
                    schedule,
                ).racers[i]).phase is Released) ==> {
                &&& Self::start(base, amounts).run(schedule).counter == base + sum(amounts)
                &&& !Self::start(base, amounts).run(schedule).locked
            },
    {
        Self::lemma_run_keeps_inv(base, amounts, schedule);
        let end = Self::start(base, amounts).run(schedule);
        if forall|i: int| 0 <= i < amounts.len() ==> (#[trigger] end.racers[i]).phase is Released {
            lemma_written_is_sum(end.racers, amounts);
        }
    }

    /// A lock that is not released is never taken: as long as the holder
    /// takes no step, be it because it was interrupted by a handler that
    /// wants the lock or because it asks for the lock it holds, every swap
    /// of the others finds the flag set and nobody gets anywhere.
    pub proof fn lemma_unreleased_lock_starves(self, schedule: Seq<int>, holder: int)
        requires
            self.inv(),
            self.holder == Some(holder),
            forall|t: int| 0 <= t < schedule.len() ==> schedule[t] != holder,
        ensures
            self.run(schedule).locked,
            self.run(schedule).holder == Some(holder),
            self.run(schedule).counter == self.counter,
            self.run(schedule).racers == self.racers,
        decreases schedule.len(),
    {
        if schedule.len() > 0 {
            // the last turn is a swap that finds the flag set, or the turn
            // of somebody who is done
            self.lemma_unreleased_lock_starves(schedule.drop_last(), holder);
        }
    }

    /// Racers that have not written contribute nothing.
    pub proof fn lemma_nothing_written_at_start(racers: Seq<Racer>)
        requires
            forall|i: int| 0 <= i < racers.len() ==> !(#[trigger] racers[i]).wrote,
        ensures
            written(racers) == 0,
        decreases racers.len(),
    {
        if racers.len() > 0 {
            Self::lemma_nothing_written_at_start(racers.drop_last());
        }
    }
}

/// What is written never exceeds the sum of all amounts, as long as no
/// amount is negative.
pub proof fn lemma_written_within_sum(racers: Seq<Racer>, amounts: Seq<int>)
    requires
        racers.len() == amounts.len(),
        forall|i: int| 0 <= i < racers.len() ==> (#[trigger] racers[i]).amount == amounts[i],
        forall|i: int| 0 <= i < amounts.len() ==> #[trigger] amounts[i] >= 0,
    ensures
        0 <= written(racers) <= sum(amounts),
    decreases racers.len(),
{
    if racers.len() > 0 {
        lemma_written_within_sum(racers.drop_last(), amounts.drop_last());
    }
}

/// A racer that adds its amount to a counter behind a lock, one atomic step
/// at a time.
pub struct Adder {
    call: LockCall,
    amount: u64,
    read: Option<u64>,
    wrote: bool,
}

impl View for Adder {
    type V = Racer;

    closed spec fn view(&self) -> Racer {
        Racer {
            phase: self.call.phase(),
            read: match self.read {
                Some(read) => Some(read as int),
                None => None,
            },
            wrote: self.wrote,
            amount: self.amount as int,
        }
    }
}

/// The racers that `adders` stand for.
pub open spec fn views(adders: Seq<Adder>) -> Seq<Racer> {
    Seq::new(adders.len(), |i: int| adders[i]@)
}

/// The amounts of `adders`.
pub open spec fn amounts(adders: Seq<Adder>) -> Seq<int> {
    Seq::new(adders.len(), |i: int| adders[i]@.amount)
}

impl Adder {
    /// A racer that is about to ask for the lock, to add `amount`.
    pub fn new(amount: u64) -> (adder: Self)
        ensures
            adder@ == (Racer {
                phase: LockPhase::Acquiring,
                read: None,
                wrote: false,
                amount: amount as int,
            }),
    {
        Adder { call: LockCall::new(), amount, read: None, wrote: false }
    }

    /// Where the racer stands with the lock.
    pub fn phase(&self) -> (phase: LockPhase)
        ensures
            phase == self@.phase,
    {
        self.call.phase()
    }

    /// What the racer adds.
    pub fn amount(&self) -> (amount: u64)
        ensures
            amount == self@.amount,
    {
        self.amount
    }

    /// Takes the racer's next atomic step on the counter behind `counter`:
    /// a swap while it is acquiring, then under the lock the read of the
    /// counter, the write, and the release.
    pub fn step(&mut self, counter: &mut Mutex<u64>)
        requires
            old(self)@.phase is Holding ==> old(counter).is_locked(),
            old(self)@.counter_after_step(old(counter).value() as int) <= u64::MAX,
        ensures
            final(self)@ == old(self)@.after_step(
                old(counter).is_locked(),
                old(counter).value() as int,
            ),
            final(counter).is_locked() == old(self)@.flag_after_step(old(counter).is_locked()),
            final(counter).value() == old(self)@.counter_after_step(old(counter).value() as int),
    {
        match self.call.phase() {
            LockPhase::Acquiring => {
                counter.swap(&mut self.call);
            },
            LockPhase::Holding => {
                match self.read {
                    None => {
                        let value = counter.held(&self.call);
                        self.read = Some(*value);
                    },
                    Some(read) => {
                        if !self.wrote {
                            let value = counter.held(&self.call);
                            *value = read + self.amount;
                            self.wrote = true;
                        } else {
                            counter.release(&mut self.call);
                        }
                    },
                }
            },
            LockPhase::Released => {},
        }
    }
}

/// Takes the steps of the racers `racers` on the counter behind `counter` in
/// the order of `schedule`, which names the racer that takes each step; an
/// entry that names no racer is skipped.
///
/// Whatever the schedule, no two racers hold the lock at once and no update
/// is lost: the counter ends at its first value plus the amounts of the
/// racers that have written, and when all racers are done that is the first
/// value plus the sum of all amounts, with the lock free again.
pub fn interleave(counter: &mut Mutex<u64>, racers: &mut Vec<Adder>, schedule: &Vec<usize>)
    requires
        !old(counter).is_locked(),
        old(counter).value() + sum(amounts(old(racers)@)) <= u64::MAX,
        forall|i: int|
            0 <= i < old(racers)@.len() ==> {
                let racer = #[trigger] old(racers)@[i]@;
                racer.phase is Acquiring && racer.read is None && !racer.wrote
            },
    ensures
        final(racers)@.len() == old(racers)@.len(),
        amounts(final(racers)@) == amounts(old(racers)@),
        final(counter).value() == old(counter).value() + written(views(final(racers)@)),
        forall|i: int, j: int|
            0 <= i < final(racers)@.len() && 0 <= j < final(racers)@.len() && (
            #[trigger] final(racers)@[i]@).phase is Holding && (
            #[trigger] final(racers)@[j]@).phase is Holding ==> i == j,
        (forall|i: int|
            0 <= i < final(racers)@.len() ==> (#[trigger] final(racers)@[i]@).phase
                is Released) ==> {
            &&& final(counter).value() == old(counter).value() + sum(amounts(old(racers)@))
            &&& !final(counter).is_locked()
        },
{
    let ghost base = counter.value() as int;
    let ghost all = amounts(racers@);
    let ghost mut race = LockRace::start(base, all);
    proof {
        assert(race.racers =~= views(racers@));
        LockRace::lemma_run_keeps_inv(base, all, Seq::empty());
    }
    let mut k: usize = 0;
    while k < schedule.len()
        invariant
            0 <= k <= schedule@.len(),
            race.inv(),
            race.base == base,
            race.locked == counter.is_locked(),
            race.counter == counter.value(),
            race.racers == views(racers@),
            amounts(racers@) == all,
            base + sum(all) <= u64::MAX,
        decreases schedule@.len() - k,
    {
        let turn = schedule[k];
        if turn < racers.len() {
            proof {
                let written_now = race.racers.update(
                    turn as int,
                    Racer { wrote: true, ..race.racers[turn as int] },
                );
                lemma_written_update(race.racers, turn as int, written_now[turn as int]);
                lemma_written_within_sum(written_now, all);
            }
            racers[turn].step(counter);
            proof {
                race.lemma_step_keeps_inv(turn as int);
                race = race.step(turn as int);
                assert(race.racers =~= views(racers@));
                assert(amounts(racers@) =~= all);
            }
        }
        k += 1;
    }
    proof {
        assert forall|i: int| 0 <= i < racers@.len() implies (#[trigger] racers@[i]@)
            == race.racers[i] by {}
        if forall|i: int| 0 <= i < racers@.len() ==> (#[trigger] racers@[i]@).phase is Released {
            lemma_written_is_sum(race.racers, all);
        }
    }
}

} // verus!

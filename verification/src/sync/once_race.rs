//! Any number of callers racing through `init_once` on one cell.
//!
//! The model interleaves the callers' atomic steps in an arbitrary order.
//! Each step does to the tag and the storage what the step of that name does
//! to the real cell, and moves the caller on by the decisions of
//! [`InitPhase`]. An initializer may return a value or panic. The laws hold
//! after every schedule.
//!
//! [`interleave`] takes the steps of real calls on a real cell in a given
//! order, and is proved against the model: what the laws say of every
//! schedule holds of every run of it.

use vstd::prelude::*;
use crate::sync::once::InitCall;
use crate::sync::once::InitPhase;
use crate::sync::once::Once;
use crate::sync::once::OnceState;

verus! {

/// One caller.
pub struct Caller<V> {
    /// Where the caller stands.
    pub phase: InitPhase,
    /// The value it returned with.
    pub seen: Option<V>,
    /// Whether its initializer panicked; such a caller takes no more steps.
    pub unwound: bool,
}

/// The shared cell together with the callers racing on it.
pub struct OnceRace<V> {
    /// The atomic tag.
    pub tag: OnceState,
    /// What the storage holds; `None` while it is uninitialized memory.
    pub storage: Option<V>,
    /// How many times an initializer has been run.
    pub runs: nat,
    /// The caller whose compare-and-swap moved the tag out of `Uninit`.
    pub winner: Option<int>,
    /// The callers.
    pub callers: Seq<Caller<V>>,
}

/// One entry of a schedule: the caller that takes the next step, and what
/// its initializer does if that step runs it: it returns a value, or it
/// panics, which is `None`.
pub struct Turn<V> {
    pub caller: int,
    pub produced: Option<V>,
}

impl<V> OnceRace<V> {
    /// A fresh cell with `n` callers about to enter `init_once`.
    pub open spec fn start(n: nat) -> Self {
        OnceRace {
            tag: OnceState::Uninit,
            storage: None,
            runs: 0,
            winner: None,
            callers: Seq::new(
                n,
                |i: int| Caller { phase: InitPhase::Start, seen: None, unwound: false },
            ),
        }
    }

    /// The state after caller `turn.caller` has taken its next atomic step:
    /// the step that [`Once::step`](crate::sync::once::Once::step) takes for
    /// a call in that phase, or the panic of the initializer. A turn of
    /// somebody who is not there, who has returned, or whose initializer
    /// has panicked, changes nothing.
    pub open spec fn step(self, turn: Turn<V>) -> Self {
        let i = turn.caller;
        if 0 <= i < self.callers.len() && !self.callers[i].unwound {
            let me = self.callers[i];
            if me.phase is Initializing && turn.produced is None {
                OnceRace {
                    runs: self.runs + 1,
                    callers: self.callers.update(i, Caller { unwound: true, ..me }),
                    ..self
                }
            } else {
                OnceRace {
                    tag: me.phase.tag_after_step(self.tag),
                    storage: if me.phase is Initializing {
                        turn.produced
                    } else {
                        self.storage
                    },
                    runs: if me.phase is Initializing {
                        self.runs + 1
                    } else {
                        self.runs
                    },
                    winner: if me.phase is Claiming && self.tag is Uninit {
                        Some(i)
                    } else {
                        self.winner
                    },
                    callers: self.callers.update(
                        i,
                        Caller {
                            phase: me.phase.after_step(self.tag),
                            seen: if me.phase is Publishing || me.phase is Reading {
                                self.storage
                            } else {
                                me.seen
                            },
                            ..me
                        },
                    ),
                }
            }
        } else {
            self
        }
    }

    /// The state after the turns of `schedule`, taken in order.
    pub open spec fn run(self, schedule: Seq<Turn<V>>) -> Self
        decreases schedule.len(),
    {
        if schedule.len() == 0 {
            self
        } else {
            self.run(schedule.drop_last()).step(schedule.last())
        }
    }

    /// What holds of the cell and its callers at every moment of a race.
    pub open spec fn inv(self) -> bool {
        &&& self.tag is Uninit ==> {
            &&& self.winner is None
            &&& self.storage is None
            &&& self.runs == 0
            &&& forall|i: int|
                0 <= i < self.callers.len() ==> {
                    let phase = #[trigger] self.callers[i].phase;
                    phase is Start || phase is Claiming
                }
        }
        &&& !(self.tag is Uninit) ==> {
            &&& self.winner is Some
            &&& 0 <= self.winner->0 < self.callers.len()
            &&& forall|i: int|
                0 <= i < self.callers.len() && i != self.winner->0 ==> {
                    let phase = #[trigger] self.callers[i].phase;
                    !(phase is Initializing) && !(phase is Publishing)
                }
        }
        &&& forall|i: int|
            0 <= i < self.callers.len() && (#[trigger] self.callers[i]).unwound ==> {
                &&& self.tag is Running
                &&& self.winner == Some(i)
                &&& self.callers[i].phase is Initializing
            }
        &&& self.tag is Running ==> {
            let winner = self.callers[self.winner->0];
            &&& winner.phase is Initializing || winner.phase is Publishing
            &&& winner.phase is Initializing ==> {
                &&& self.storage is None
                &&& self.runs == if winner.unwound {
                    1nat
                } else {
                    0nat
                }
            }
            &&& winner.phase is Publishing ==> self.runs == 1 && self.storage is Some
            &&& forall|i: int|
                0 <= i < self.callers.len() ==> {
                    let phase = #[trigger] self.callers[i].phase;
                    !(phase is Reading) && !(phase is Done)
                }
        }
        &&& self.tag is Init ==> {
            &&& self.runs == 1
            &&& self.storage is Some
            &&& self.callers[self.winner->0].phase is Done
            &&& forall|i: int|
                0 <= i < self.callers.len() && (#[trigger] self.callers[i].phase) is Done
                    ==> self.callers[i].seen == self.storage
        }
    }

    /// A step keeps the invariant.
    pub proof fn lemma_step_keeps_inv(self, turn: Turn<V>)
        requires
            self.inv(),
        ensures
            self.step(turn).inv(),
            self.step(turn).callers.len() == self.callers.len(),
    {
    }

    /// The invariant holds after every schedule.
    pub proof fn lemma_run_keeps_inv(self, schedule: Seq<Turn<V>>)
        requires
            self.inv(),
        ensures
            self.run(schedule).inv(),
            self.run(schedule).callers.len() == self.callers.len(),
        decreases schedule.len(),
    {
        if schedule.len() > 0 {
            self.lemma_run_keeps_inv(schedule.drop_last());
            self.run(schedule.drop_last()).lemma_step_keeps_inv(schedule.last());
        }
    }

    /// The tag only ever moves forward.
    pub proof fn lemma_tag_moves_forward(self, turn: Turn<V>)
        requires
            self.inv(),
        ensures
            self.tag.tag() <= self.step(turn).tag.tag(),
    {
    }

    /// Once the value is published, no step changes it.
    pub proof fn lemma_published_value_stays(self, turn: Turn<V>)
        requires
            self.inv(),
            self.tag is Init,
        ensures
            self.step(turn).tag is Init,
            self.step(turn).storage == self.storage,
            self.step(turn).runs == self.runs,
    {
    }

    /// However the steps of `n` callers interleave, no more than one
    /// initializer is ever run, and one has been run as soon as one caller
    /// has returned.
    pub proof fn lemma_initializer_runs_once(n: nat, schedule: Seq<Turn<V>>)
        ensures
            Self::start(n).run(schedule).runs <= 1,
            forall|i: int|
                0 <= i < n && (#[trigger] Self::start(n).run(schedule).callers[i].phase) is Done
                    ==> Self::start(n).run(schedule).runs == 1,
    {
        Self::start(n).lemma_run_keeps_inv(schedule);
    }

    /// However the steps of `n` callers interleave, every caller that has
    /// returned did so with the value that the one initializer wrote: any
    /// two of them hold the same value.
    pub proof fn lemma_callers_see_one_value(n: nat, schedule: Seq<Turn<V>>, i: int, j: int)
        requires
            0 <= i < n,
            0 <= j < n,
            Self::start(n).run(schedule).callers[i].phase is Done,
            Self::start(n).run(schedule).callers[j].phase is Done,
        ensures
            Self::start(n).run(schedule).callers[i].seen is Some,
            Self::start(n).run(schedule).callers[i].seen == Self::start(n).run(schedule).storage,
            Self::start(n).run(schedule).callers[i].seen == Self::start(n).run(
                schedule,
            ).callers[j].seen,
    {
        Self::start(n).lemma_run_keeps_inv(schedule);
    }

    /// In every state of a race the cell admits the next step of every
    /// caller: a waiting caller never finds the tag at `Uninit`, the
    /// storage is never read before it is written, and it is written and
    /// published only under the tag `Running`.
    pub proof fn lemma_steps_are_defined(n: nat, schedule: Seq<Turn<V>>, i: int)
        requires
            0 <= i < n,
        ensures
            ({
                let now = Self::start(n).run(schedule);
                &&& now.callers[i].phase is Waiting ==> !(now.tag is Uninit)
                &&& now.callers[i].phase is Initializing && !now.callers[i].unwound ==> now.tag
                    is Running && now.storage is None
                &&& now.callers[i].phase is Publishing ==> now.tag is Running && now.storage
                    is Some
                &&& now.callers[i].phase is Reading ==> now.tag is Init && now.storage is Some
            }),
    {
        Self::start(n).lemma_run_keeps_inv(schedule);
    }

    /// A panic is not recovered from: once the initializer of a caller has
    /// panicked, the tag stays at `Running` whatever steps follow. No caller
    /// ever returns, and whoever waits goes on waiting.
    pub proof fn lemma_panic_is_for_ever(self, more: Seq<Turn<V>>, panicked: int)
        requires
            self.inv(),
            0 <= panicked < self.callers.len(),
            self.callers[panicked].unwound,
        ensures
            self.run(more).tag is Running,
            self.run(more).callers[panicked].unwound,
            self.run(more).storage is None,
            forall|i: int|
                0 <= i < self.callers.len() ==> !((#[trigger] self.run(more).callers[i].phase)
                    is Done),
            forall|i: int|
                0 <= i < self.callers.len() && (#[trigger] self.callers[i].phase) is Waiting
                    ==> self.run(more).callers[i].phase is Waiting,
        decreases more.len(),
    {
        if more.len() > 0 {
            self.lemma_panic_is_for_ever(more.drop_last(), panicked);
            self.lemma_run_keeps_inv(more.drop_last());
            self.run(more.drop_last()).lemma_step_keeps_inv(more.last());
        }
    }
}

/// Whether the cell `once` and the calls `calls` stand as the race `race`
/// does: the same tag and storage, and every call in the phase of its
/// caller, with its initializer gone exactly if it has run.
pub open spec fn stands_as<T, F: FnOnce() -> T>(
    once: Once<T>,
    calls: Seq<InitCall<F>>,
    race: OnceRace<T>,
) -> bool {
    &&& once.wf()
    &&& race.tag == once.state()
    &&& race.storage == once.storage()
    &&& race.callers.len() == calls.len()
    &&& forall|i: int|
        0 <= i < calls.len() ==> {
            let call = #[trigger] calls[i];
            &&& call.wf()
            &&& call.phase() == race.callers[i].phase
            &&& !race.callers[i].unwound
            &&& call.initializer() is None <==> race.winner == Some(i) && !(call.phase()
                is Initializing)
        }
}

/// The turns that a schedule stands for, where an initializer that is run
/// does `produced`: each entry names the caller that takes the step.
pub open spec fn turns<V>(schedule: Seq<usize>, produced: Option<V>) -> Seq<Turn<V>> {
    Seq::new(schedule.len(), |k: int| Turn { caller: schedule[k] as int, produced })
}

/// The turns of a schedule with one more entry are the turns of the
/// schedule and then the turn of that entry.
pub proof fn lemma_turns_push<V>(schedule: Seq<usize>, entry: usize, produced: Option<V>)
    ensures
        turns(schedule.push(entry), produced) == turns(schedule, produced).push(
            Turn { caller: entry as int, produced },
        ),
        turns(schedule.push(entry), produced).drop_last() == turns(schedule, produced),
{
    assert(turns(schedule.push(entry), produced) =~= turns(schedule, produced).push(
        Turn { caller: entry as int, produced },
    ));
    assert(turns(schedule.push(entry), produced).drop_last() =~= turns(schedule, produced));
}

/// As long as no initializer has been run, a race does not depend on what
/// the initializers would do.
pub proof fn lemma_run_before_any_initializer<V>(
    n: nat,
    schedule: Seq<usize>,
    one: Option<V>,
    other: Option<V>,
)
    requires
        OnceRace::<V>::start(n).run(turns(schedule, one)).runs == 0,
    ensures
        OnceRace::<V>::start(n).run(turns(schedule, other)) == OnceRace::<V>::start(n).run(
            turns(schedule, one),
        ),
    decreases schedule.len(),
{
    if schedule.len() > 0 {
        let rest = schedule.drop_last();
        assert(schedule =~= rest.push(schedule.last()));
        lemma_turns_push(rest, schedule.last(), one);
        lemma_turns_push(rest, schedule.last(), other);
        lemma_run_before_any_initializer(n, rest, one, other);
        let before = OnceRace::<V>::start(n).run(turns(rest, one));
        let with_one = before.step(Turn { caller: schedule.last() as int, produced: one });
        let with_other = before.step(Turn { caller: schedule.last() as int, produced: other });
        assert(with_one.callers =~= with_other.callers);
    } else {
        assert(turns(schedule, one) =~= turns(schedule, other));
    }
}

/// Takes the steps of the calls `calls` on the cell `once` in the order of
/// `schedule`, which names the call that takes each step; an entry that
/// names no call is skipped.
///
/// Afterwards the cell and the calls stand as the race of that many callers
/// stands after the turns of the schedule, in which the initializer that
/// was run produced the value that is now in the cell.
///
/// Whatever the schedule, every step is one that the cell admits, no more
/// than one initializer is run, the value in the cell is the one that this
/// initializer produced, and a call returns only when that value is
/// published: all calls that return, return with the same value.
pub fn interleave<T, F: FnOnce() -> T>(
    once: &mut Once<T>,
    calls: &mut Vec<InitCall<F>>,
    schedule: &Vec<usize>,
)
    requires
        old(once).wf(),
        old(once).state() is Uninit,
        forall|i: int|
            0 <= i < old(calls)@.len() ==> {
                let call = #[trigger] old(calls)@[i];
                &&& call.phase() is Start
                &&& call.initializer() is Some
                &&& call_requires(call.initializer()->0, ())
            },
    ensures
        final(once).wf(),
        final(calls)@.len() == old(calls)@.len(),
        stands_as(
            *final(once),
            final(calls)@,
            OnceRace::<T>::start(old(calls)@.len()).run(turns(schedule@, final(once).storage())),
        ),
        forall|i: int, j: int|
            0 <= i < final(calls)@.len() && 0 <= j < final(calls)@.len() && (
            #[trigger] final(calls)@[i]).initializer() is None && (
            #[trigger] final(calls)@[j]).initializer() is None ==> i == j,
        forall|i: int|
            0 <= i < final(calls)@.len() ==> {
                let call = #[trigger] final(calls)@[i];
                &&& call.initializer() is Some ==> call.initializer() == old(
                    calls,
                )@[i].initializer()
                &&& call.initializer() is None && final(once).storage() is Some ==> call_ensures(
                    old(calls)@[i].initializer()->0,
                    (),
                    final(once).value(),
                )
                &&& call.phase() is Done ==> final(once).state() is Init
            },
        final(once).state() is Init ==> exists|i: int|
            0 <= i < final(calls)@.len() && (#[trigger] final(calls)@[i]).initializer() is None,
{
    let ghost first = calls@;
    let ghost mut race = OnceRace::<T>::start(calls@.len() as nat);
    let mut k: usize = 0;
    proof {
        assert(turns(schedule@.take(0), once.storage()) =~= Seq::<Turn<T>>::empty());
    }
    while k < schedule.len()
        invariant
            0 <= k <= schedule@.len(),
            calls@.len() == first.len(),
            race.inv(),
            race == OnceRace::<T>::start(first.len()).run(
                turns(schedule@.take(k as int), once.storage()),
            ),
            stands_as(*once, calls@, race),
            forall|i: int|
                0 <= i < first.len() ==> {
                    let call = #[trigger] first[i];
                    &&& call.initializer() is Some
                    &&& call_requires(call.initializer()->0, ())
                },
            forall|i: int|
                0 <= i < first.len() && (#[trigger] calls@[i]).initializer() is Some
                    ==> calls@[i].initializer() == first[i].initializer(),
            race.storage is Some ==> race.winner is Some && call_ensures(
                first[race.winner->0].initializer()->0,
                (),
                race.storage->0,
            ),
        decreases schedule@.len() - k,
    {
        let turn = schedule[k];
        let ghost stored = once.storage();
        if turn < calls.len() {
            let ghost before = calls@;
            once.step(&mut calls[turn]);
            proof {
                if before[turn as int].phase() is Initializing {
                    // the first initializer is about to run: what went
                    // before is the same whatever it produces
                    lemma_run_before_any_initializer(
                        first.len(),
                        schedule@.take(k as int),
                        stored,
                        once.storage(),
                    );
                }
                let taken = Turn { caller: turn as int, produced: once.storage() };
                race.lemma_step_keeps_inv(taken);
                race = race.step(taken);
                assert forall|i: int| 0 <= i < calls@.len() && i != turn implies calls@[i]
                    == before[i] by {}
            }
        } else {
            proof {
                race = race.step(Turn { caller: turn as int, produced: once.storage() });
            }
        }
        proof {
            assert(schedule@.take(k + 1) =~= schedule@.take(k as int).push(turn));
            lemma_turns_push(schedule@.take(k as int), turn, once.storage());
        }
        k += 1;
    }
    proof {
        assert(schedule@.take(k as int) =~= schedule@);
    }
    proof {
        if once.state() is Init {
            assert(calls@[race.winner->0].initializer() is None);
        }
    }
}

} // verus!

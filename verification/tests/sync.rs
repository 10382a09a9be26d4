use obamas::sync::lock_race::Adder;
use obamas::sync::mutex::LockCall;
use obamas::sync::mutex::LockPhase;
use obamas::sync::mutex::Mutex;
use obamas::sync::once::InitCall;
use obamas::sync::once_race;
use obamas::sync::lock_race;
use obamas::sync::once::InitPhase;
use obamas::sync::once::Lazy;
use obamas::sync::once::Once;
use obamas::sync::once::OnceState;
use std::cell::Cell;

/// A sequence of numbers that looks random.
struct Dice(u64);

impl Dice {
    fn roll(&mut self, sides: usize) -> usize {
        self.0 ^= self.0 << 13;
        self.0 ^= self.0 >> 7;
        self.0 ^= self.0 << 17;
        (self.0 % sides as u64) as usize
    }
}

#[test]
fn tags() {
    assert_eq!(OnceState::Uninit.tag(), 0);
    assert_eq!(OnceState::Running.tag(), 1);
    assert_eq!(OnceState::Init.tag(), 2);
    assert_eq!(OnceState::from_tag(0), Some(OnceState::Uninit));
    assert_eq!(OnceState::from_tag(1), Some(OnceState::Running));
    assert_eq!(OnceState::from_tag(2), Some(OnceState::Init));
    assert_eq!(OnceState::from_tag(3), None);
    assert_eq!(OnceState::from_tag(usize::MAX), None);
}

#[test]
fn first_load_decides() {
    assert_eq!(InitPhase::Start.observe(OnceState::Uninit), InitPhase::Claiming);
    assert_eq!(InitPhase::Start.observe(OnceState::Running), InitPhase::Waiting);
    assert_eq!(InitPhase::Start.observe(OnceState::Init), InitPhase::Reading);
}

#[test]
fn swap_decides() {
    assert_eq!(InitPhase::Claiming.observe(OnceState::Uninit), InitPhase::Initializing);
    assert_eq!(InitPhase::Claiming.observe(OnceState::Running), InitPhase::Waiting);
    assert_eq!(InitPhase::Claiming.observe(OnceState::Init), InitPhase::Reading);
}

#[test]
fn waiting_decides() {
    assert_eq!(InitPhase::Waiting.observe(OnceState::Running), InitPhase::Waiting);
    assert_eq!(InitPhase::Waiting.observe(OnceState::Init), InitPhase::Reading);
}

#[test]
fn acting_phases_proceed() {
    assert_eq!(InitPhase::Initializing.proceed(), InitPhase::Publishing);
    assert_eq!(InitPhase::Publishing.proceed(), InitPhase::Done);
    assert_eq!(InitPhase::Reading.proceed(), InitPhase::Done);
}

#[test]
fn once_runs_the_first_initializer_only() {
    let runs = Cell::new(0);
    let mut once: Once<u32> = Once::new();
    assert_eq!(once.state(), OnceState::Uninit);
    assert_eq!(once.try_get(), None);
    for _ in 0..10 {
        let value = *once.init_once(|| {
            runs.set(runs.get() + 1);
            40 + runs.get()
        });
        assert_eq!(value, 41);
    }
    assert_eq!(runs.get(), 1);
    assert_eq!(once.state(), OnceState::Init);
    assert_eq!(once.try_get(), Some(&41));
    assert_eq!(*once.force_get(), 41);
}

fn initializer<'a>(id: u32, runs: &'a Cell<u32>) -> impl FnOnce() -> u32 + 'a {
    move || {
        runs.set(runs.get() + 1);
        100 + id
    }
}

#[test]
fn two_calls_race_and_one_initializes() {
    let runs = Cell::new(0);
    let mut once: Once<u32> = Once::new();
    let mut a = InitCall::new(initializer(1, &runs));
    let mut b = InitCall::new(initializer(2, &runs));

    // both read the tag before either swaps
    assert_eq!(once.step(&mut a), None);
    assert_eq!(once.step(&mut b), None);
    assert_eq!((a.phase(), b.phase()), (InitPhase::Claiming, InitPhase::Claiming));

    // the swap of b comes first
    assert_eq!(once.step(&mut b), None);
    assert_eq!(once.state(), OnceState::Running);
    assert_eq!(once.step(&mut a), None);
    assert_eq!((a.phase(), b.phase()), (InitPhase::Waiting, InitPhase::Initializing));
    assert_eq!(once.try_get(), None);

    // a spins while b initializes
    assert_eq!(once.step(&mut a), None);
    assert_eq!(once.step(&mut b), None);
    assert_eq!(runs.get(), 1);
    assert_eq!(once.state(), OnceState::Running);
    assert_eq!(once.try_get(), None);
    assert_eq!(once.step(&mut a), None);
    assert_eq!((a.phase(), b.phase()), (InitPhase::Waiting, InitPhase::Publishing));

    // b publishes and returns; a sees the tag, reads and returns
    assert_eq!(once.step(&mut b), Some(&102));
    assert_eq!(once.state(), OnceState::Init);
    assert_eq!(once.step(&mut a), None);
    assert_eq!(a.phase(), InitPhase::Reading);
    assert_eq!(once.step(&mut a), Some(&102));
    assert_eq!((a.phase(), b.phase()), (InitPhase::Done, InitPhase::Done));

    // a call that has returned takes no more steps
    assert_eq!(once.step(&mut a), None);
    assert_eq!(once.step(&mut b), None);
    assert_eq!(runs.get(), 1);
}

#[test]
fn a_late_call_reads_without_swapping() {
    let runs = Cell::new(0);
    let mut once: Once<u32> = Once::new();
    assert_eq!(*once.init_once(initializer(1, &runs)), 101);
    let mut late = InitCall::new(initializer(2, &runs));
    assert_eq!(once.step(&mut late), None);
    assert_eq!(late.phase(), InitPhase::Reading);
    assert_eq!(once.step(&mut late), Some(&101));
    assert_eq!(runs.get(), 1);
}

#[test]
fn every_interleaving_of_callers_runs_one_initializer() {
    let mut dice = Dice(0x2545_f491_4f6c_dd1d);
    for round in 0..500 {
        let callers = 2 + round % 5;
        let runs = Cell::new(0);
        let mut once: Once<u32> = Once::new();
        let mut calls: Vec<_> =
            (0..callers).map(|id| InitCall::new(initializer(id as u32, &runs))).collect();
        let mut seen: Vec<Option<u32>> = vec![None; callers];
        let mut steps = 0;
        while calls.iter().any(|call| call.phase() != InitPhase::Done) {
            let turn = dice.roll(callers);
            let before = once.state();
            if let Some(value) = once.step(&mut calls[turn]) {
                assert_eq!(seen[turn], None);
                seen[turn] = Some(*value);
            }
            assert!(once.state().tag() >= before.tag());
            assert!(runs.get() <= 1);
            steps += 1;
            assert!(steps < 100_000);
        }
        assert_eq!(runs.get(), 1);
        let first = seen[0].unwrap();
        assert!((100..100 + callers as u32).contains(&first));
        assert!(seen.iter().all(|value| *value == Some(first)));
        assert_eq!(once.try_get(), Some(&first));
    }
}

#[test]
fn a_schedule_leaves_every_call_where_its_turns_took_it() {
    let runs = Cell::new(0);
    let mut once: Once<u32> = Once::new();
    let mut calls: Vec<_> =
        (0..3).map(|id| InitCall::new(initializer(id as u32, &runs))).collect();
    once_race::interleave(&mut once, &mut calls, &vec![1, 1, 0, 7, 0]);
    assert_eq!(once.state(), OnceState::Running);
    assert_eq!(calls[0].phase(), InitPhase::Waiting);
    assert_eq!(calls[1].phase(), InitPhase::Initializing);
    assert_eq!(calls[2].phase(), InitPhase::Start);
    assert_eq!(runs.get(), 0);

    let mut once: Once<u32> = Once::new();
    let mut calls: Vec<_> =
        (0..3).map(|id| InitCall::new(initializer(id as u32, &runs))).collect();
    once_race::interleave(&mut once, &mut calls, &vec![1, 1, 0, 7, 0, 1, 2, 0, 1, 0, 2]);
    assert_eq!(once.state(), OnceState::Init);
    assert_eq!(calls[0].phase(), InitPhase::Reading);
    assert_eq!(calls[1].phase(), InitPhase::Done);
    assert_eq!(calls[2].phase(), InitPhase::Reading);
    assert_eq!(runs.get(), 1);
    assert_eq!(once.try_get(), Some(&101));
}

#[test]
fn a_schedule_that_stops_early_has_run_at_most_one_initializer() {
    let mut dice = Dice(0x9e37_79b9_7f4a_7c15);
    for round in 0..500 {
        let callers = 1 + round % 6;
        let runs = Cell::new(0);
        let mut once: Once<u32> = Once::new();
        let mut calls: Vec<_> =
            (0..callers).map(|id| InitCall::new(initializer(id as u32, &runs))).collect();
        // some entries name nobody
        let schedule: Vec<usize> = (0..dice.roll(40)).map(|_| dice.roll(callers + 2)).collect();
        once_race::interleave(&mut once, &mut calls, &schedule);
        assert!(runs.get() <= 1);
        let done = calls.iter().filter(|call| call.phase() == InitPhase::Done).count();
        match once.try_get() {
            Some(value) => {
                assert_eq!(runs.get(), 1);
                assert!((100..100 + callers as u32).contains(value));
                assert!(done >= 1);
            }
            None => assert_eq!(done, 0),
        }
        assert_eq!(once.state() == OnceState::Uninit, runs.get() == 0 && !calls.iter().any(
            |call| call.phase() != InitPhase::Start && call.phase() != InitPhase::Claiming));
    }
}

#[test]
fn a_later_initializer_is_not_used() {
    let mut once = Once::new();
    assert_eq!(*once.init_once(|| String::from("first")), "first");
    assert_eq!(*once.init_once(|| String::from("second")), "first");
}

#[test]
fn once_default_is_uninitialized() {
    let once: Once<u8> = Once::default();
    assert_eq!(once.state(), OnceState::Uninit);
    assert_eq!(once.try_get(), None);
}

#[test]
fn lazy_builds_on_first_use() {
    let runs = Cell::new(0);
    let mut lazy = Lazy::new(|| {
        runs.set(runs.get() + 1);
        vec![1, 2, 3]
    });
    assert_eq!(runs.get(), 0);
    let first = std::ptr::from_ref(lazy.force()).addr();
    assert_eq!(runs.get(), 1);
    for _ in 0..5 {
        let again = std::ptr::from_ref(lazy.force()).addr();
        assert_eq!(again, first);
        assert_eq!(*lazy.force(), vec![1, 2, 3]);
    }
    assert_eq!(runs.get(), 1);
}

fn seven() -> u64 {
    7
}

#[test]
fn lazy_takes_a_plain_function() {
    let mut lazy: Lazy<u64> = Lazy::new(seven);
    assert_eq!(*lazy.force(), 7);
    assert_eq!(*lazy.force(), 7);
}

#[test]
fn swap_on_the_lock_flag_decides() {
    assert_eq!(LockPhase::Acquiring.after_swap(false), LockPhase::Holding);
    assert_eq!(LockPhase::Acquiring.after_swap(true), LockPhase::Acquiring);
}

#[test]
fn lock_and_unlock() {
    let mut mutex = Mutex::new(5u64);
    assert!(!mutex.is_locked());
    let mut guard = mutex.lock();
    assert!(guard.mutex.is_locked());
    assert_eq!(*guard, 5);
    *guard += 2;
    assert_eq!(*guard, 7);
    guard.unlock();
    assert!(!mutex.is_locked());
    let guard = mutex.lock();
    assert_eq!(*guard, 7);
    guard.unlock();
}

#[test]
fn increments_under_the_lock_add_up() {
    let amounts = [3u64, 5, 7, 11, 13, 17, 19, 23];
    let mut counter = Mutex::new(100u64);
    for round in 0..50 {
        for racer in 0..amounts.len() {
            let mut guard = counter.lock();
            let read = *guard;
            *guard = read + amounts[(racer + round) % amounts.len()];
            guard.unlock();
        }
    }
    let guard = counter.lock();
    assert_eq!(*guard, 100 + 50 * amounts.iter().sum::<u64>());
    guard.unlock();
}

#[test]
fn a_held_lock_keeps_the_others_spinning() {
    let mut mutex = Mutex::new(0u64);
    let mut a = LockCall::new();
    let mut b = LockCall::new();
    mutex.swap(&mut a);
    assert_eq!(a.phase(), LockPhase::Holding);
    for _ in 0..10 {
        mutex.swap(&mut b);
        assert_eq!(b.phase(), LockPhase::Acquiring);
        assert!(mutex.is_locked());
    }
    *mutex.held(&a) += 5;
    mutex.release(&mut a);
    assert_eq!(a.phase(), LockPhase::Released);
    assert!(!mutex.is_locked());
    mutex.swap(&mut b);
    assert_eq!(b.phase(), LockPhase::Holding);
    assert_eq!(*mutex.held(&b), 5);
    mutex.release(&mut b);
    assert!(!mutex.is_locked());
}

#[test]
fn every_interleaving_of_racers_loses_no_update() {
    let mut dice = Dice(0x9e37_79b9_7f4a_7c15);
    for round in 0..500 {
        let count = 2 + round % 6;
        let mut counter = Mutex::new(1000u64);
        let mut racers: Vec<Adder> = (0..count).map(|i| Adder::new(1 + 3 * i as u64)).collect();
        let mut steps = 0;
        while racers.iter().any(|racer| racer.phase() != LockPhase::Released) {
            let turn = dice.roll(count);
            racers[turn].step(&mut counter);
            let holders =
                racers.iter().filter(|racer| racer.phase() == LockPhase::Holding).count();
            assert!(holders <= 1);
            assert_eq!(counter.is_locked(), holders == 1);
            steps += 1;
            assert!(steps < 100_000);
        }
        let total: u64 = racers.iter().map(|racer| racer.amount()).sum();
        let guard = counter.lock();
        assert_eq!(*guard, 1000 + total);
        guard.unlock();
    }
}

#[test]
fn a_schedule_that_stops_early_has_lost_no_update() {
    let mut dice = Dice(0x2545_f491_4f6c_dd1d);
    for round in 0..500 {
        let count = 1 + round % 5;
        let mut counter = Mutex::new(7u64);
        let mut racers: Vec<Adder> = (0..count).map(|i| Adder::new(10 + i as u64)).collect();
        // some entries name nobody
        let schedule: Vec<usize> = (0..dice.roll(60)).map(|_| dice.roll(count + 2)).collect();
        lock_race::interleave(&mut counter, &mut racers, &schedule);
        let holders = racers.iter().filter(|racer| racer.phase() == LockPhase::Holding).count();
        let released: Vec<&Adder> =
            racers.iter().filter(|racer| racer.phase() == LockPhase::Released).collect();
        assert!(holders <= 1);
        assert_eq!(counter.is_locked(), holders == 1);
        let written: u64 = released.iter().map(|racer| racer.amount()).sum();
        if holders == 0 {
            let guard = counter.lock();
            assert_eq!(*guard, 7 + written);
            guard.unlock();
        }
    }
}

#[test]
fn one_racer_alone_takes_four_steps() {
    let mut counter = Mutex::new(5u64);
    let mut racers = vec![Adder::new(3)];
    lock_race::interleave(&mut counter, &mut racers, &vec![0, 0, 0]);
    assert_eq!(racers[0].phase(), LockPhase::Holding);
    assert!(counter.is_locked());
    lock_race::interleave(&mut counter, &mut racers, &vec![0, 0, 0]);
    assert_eq!(racers[0].phase(), LockPhase::Released);
    assert!(!counter.is_locked());
    let guard = counter.lock();
    assert_eq!(*guard, 8);
    guard.unlock();
}

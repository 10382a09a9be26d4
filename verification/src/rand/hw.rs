//! Entropy from the jitter of the CPU's execution time.
//!
//! The generator measures how long a fixed piece of work takes, folds the
//! measured time into a 64-bit pool, and watches the measurements for signs
//! of a clock that does not jitter. Reading the time-stamp counter is for
//! the caller: every function here takes the readings it needs as
//! arguments.

use vstd::prelude::*;

verus! {

/// The number of bits of the entropy pool.
pub const DATA_SIZE_BITS: u64 = 64;

/// The number of blocks of the memory that is touched to cause jitter.
pub const MEMORY_BLOCKS: u64 = 64;

/// The size in bytes of one such block.
pub const MEMORY_BLOCK_SIZE: u64 = 32;

/// How often the memory is touched before each measurement, at the least.
pub const MEMORY_ACCESS_LOOPS: u64 = 128;

/// The number of measurements in one window of the adaptive proportion test.
pub const APT_WINDOW_SIZE: u64 = 512;

/// The number of repetitions within one window at which the test fails.
pub const APT_CUTOFF: u64 = 325;

/// The number of values that the test tells apart.
pub const APT_LSB: u64 = 16;

/// The bits of a measurement that the test looks at.
pub const APT_WORD_MASK: u64 = APT_LSB - 1;

/// The time that passed from the reading `prev` to the reading `next` of a
/// 64-bit counter that wraps around.
pub open spec fn spec_delta(prev: u64, next: u64) -> u64 {
    if prev <= next {
        (next - prev) as u64
    } else {
        (next + 0x1_0000_0000_0000_0000 - prev) as u64
    }
}

/// The time that passed from the reading `prev` to the reading `next` of a
/// 64-bit counter that wraps around.
#[verifier::when_used_as_spec(spec_delta)]
pub fn delta(prev: u64, next: u64) -> (passed: u64)
    ensures
        passed == spec_delta(prev, next),
{
    if prev < next {
        next - prev
    } else {
        (u64::MAX - prev).wrapping_add(1).wrapping_add(next)
    }
}

/// How many digits of `bits` bits `loop_shuffle` folds: enough to cover 64
/// bits, and one more.
pub open spec fn shuffle_rounds(bits: u64) -> nat {
    ((DATA_SIZE_BITS + bits - 1) / (bits as int) + 1) as nat
}

/// The exclusive or of `acc` with the `rounds` lowest digits of `time`,
/// each `bits` wide and cut out by `mask`.
pub open spec fn shuffle_digits(acc: u64, time: u64, mask: u64, bits: u64, rounds: nat) -> u64
    decreases rounds,
{
    if rounds == 0 {
        acc
    } else {
        shuffle_digits(acc ^ (time & mask), time >> bits, mask, bits, (rounds - 1) as nat)
    }
}

/// A small number that depends on all bits of `time`: the exclusive or of
/// its digits of `bits` bits, plus two to the power of `min`.
pub open spec fn spec_loop_shuffle(time: u64, bits: u64, min: u64) -> u64 {
    (shuffle_digits(0, time, ((1u64 << bits) - 1) as u64, bits, shuffle_rounds(bits)) + (1u64
        << min)) as u64
}

/// A small number that depends on all bits of `time`: the exclusive or of
/// its digits of `bits` bits, plus two to the power of `min`. It is at
/// least `2^min` and less than `2^bits + 2^min`.
#[verifier::when_used_as_spec(spec_loop_shuffle)]
pub fn loop_shuffle(time: u64, bits: u64, min: u64) -> (count: u64)
    requires
        0 < bits < 64,
        min < 64,
    ensures
        count == spec_loop_shuffle(time, bits, min),
        (1u64 << min) <= count <= ((1u64 << bits) - 1) + (1u64 << min),
{
    let ghost start = time;
    let mut time = time;
    let mut shuffle: u64 = 0;
    assert(1 <= (1u64 << bits) <= 0x8000_0000_0000_0000) by (bit_vector)
        requires
            bits < 64,
    ;
    assert((1u64 << min) <= 0x8000_0000_0000_0000) by (bit_vector)
        requires
            min < 64,
    ;
    let mask: u64 = (1 << bits) - 1;
    let rounds: u64 = (DATA_SIZE_BITS + bits - 1) / bits + 1;
    let mut round: u64 = 0;
    while round < rounds
        invariant
            0 < bits < 64,
            round <= rounds,
            rounds == shuffle_rounds(bits),
            shuffle <= mask,
            mask == (1u64 << bits) - 1,
            shuffle_digits(shuffle, time, mask, bits, (rounds - round) as nat) == shuffle_digits(
                0,
                start,
                mask,
                bits,
                rounds as nat,
            ),
        decreases rounds - round,
    {
        assert(shuffle ^ (time & mask) <= mask) by (bit_vector)
            requires
                shuffle <= mask,
                mask == (1u64 << bits) - 1,
                0 < bits < 64,
        ;
        shuffle ^= time & mask;
        time >>= bits;
        round += 1;
    }
    shuffle + (1 << min)
}

/// One step of the shift register: the pool `new` is shifted left by one
/// bit, and the bits of `time` from bit `64 - i` on and the feedback of the
/// pool's bits 63, 60, 55, 30, 27 and 22 are mixed in.
pub open spec fn lfsr_step(new: u64, time: u64, i: u64) -> u64 {
    let tmp = time << ((DATA_SIZE_BITS - i) as u64);
    let tmp = tmp ^ ((new >> 63) & 1);
    let tmp = tmp ^ ((new >> 60) & 1);
    let tmp = tmp ^ ((new >> 55) & 1);
    let tmp = tmp ^ ((new >> 30) & 1);
    let tmp = tmp ^ ((new >> 27) & 1);
    let tmp = tmp ^ ((new >> 22) & 1);
    (new << 1) ^ tmp
}

/// The pool after the steps `i` to 63 of the shift register.
pub open spec fn lfsr_from(new: u64, time: u64, i: u64) -> u64
    decreases DATA_SIZE_BITS - i,
{
    if i < 1 || i >= DATA_SIZE_BITS {
        new
    } else {
        lfsr_from(lfsr_step(new, time, i), time, (i + 1) as u64)
    }
}

/// The pool `data` after the time `time` is folded into it.
pub open spec fn lfsr(data: u64, time: u64) -> u64 {
    lfsr_from(data, time, 1)
}

/// The memory and the place in it after `n` accesses from `location` on:
/// each adds one to the byte at the place, wrapping at 256, and moves the
/// place on by one less than a block, wrapping at the end of the memory.
pub open spec fn touched(mem: Seq<u8>, location: u64, n: nat) -> (Seq<u8>, u64)
    decreases n,
{
    if n == 0 {
        (mem, location)
    } else {
        touched(
            mem.update(location as int, ((mem[location as int] + 1) % 256) as u8),
            ((location + MEMORY_BLOCK_SIZE - 1) % (MEMORY_BLOCK_SIZE * MEMORY_BLOCKS) as int)
                as u64,
            (n - 1) as nat,
        )
    }
}

/// What a jitter generator holds.
pub struct JitterState {
    /// The entropy pool.
    pub data: u64,
    /// The last reading of the clock.
    pub prev_time: u64,
    /// The last measured time.
    pub last_delta: u64,
    /// The last change of the measured time.
    pub last_delta2: u64,
    /// The oversampling rate: how many good measurements go into one bit.
    pub osr: u64,
    /// The memory that is touched before each measurement.
    pub mem: Seq<u8>,
    /// The place in the memory that is touched next.
    pub mem_location: u64,
    /// The measurements seen in this window of the proportion test.
    pub apt_observations: u64,
    /// How many of them repeated the window's first.
    pub apt_count: u64,
    /// The first measurement of the window.
    pub apt_base: u64,
    /// Whether a window has begun.
    pub apt_base_set: bool,
    /// Whether the proportion test has ever failed.
    pub health_failure: bool,
}

impl JitterState {
    /// The memory has its size, the place is in it, and the counters of the
    /// proportion test are within their window.
    pub open spec fn wf(self) -> bool {
        &&& self.mem.len() == MEMORY_BLOCK_SIZE * MEMORY_BLOCKS
        &&& self.mem_location < MEMORY_BLOCK_SIZE * MEMORY_BLOCKS
        &&& self.apt_count <= self.apt_observations < APT_WINDOW_SIZE
        &&& 1 <= self.osr
        &&& DATA_SIZE_BITS * self.osr <= u64::MAX
    }

    /// The state after the proportion test starts a new window with
    /// `delta_masked` as its first measurement.
    pub open spec fn apt_reset(self, delta_masked: u64) -> JitterState {
        JitterState { apt_count: 0, apt_base: delta_masked, apt_observations: 0, ..self }
    }

    /// The state after the proportion test has seen `delta_masked`. The very
    /// first measurement only becomes the base. Every later one is counted,
    /// and counted as a repetition if it equals the base; the test fails
    /// when the repetitions reach the cutoff, and a full window starts the
    /// next one.
    pub open spec fn apt_insert(self, delta_masked: u64) -> JitterState {
        if !self.apt_base_set {
            JitterState { apt_base: delta_masked, apt_base_set: true, ..self }
        } else {
            let repeated = delta_masked == self.apt_base;
            let count = if repeated {
                (self.apt_count + 1) as u64
            } else {
                self.apt_count
            };
            let counted = JitterState {
                apt_count: count,
                health_failure: self.health_failure || (repeated && count >= APT_CUTOFF),
                apt_observations: (self.apt_observations + 1) as u64,
                ..self
            };
            if counted.apt_observations >= APT_WINDOW_SIZE {
                counted.apt_reset(delta_masked)
            } else {
                counted
            }
        }
    }

    /// Whether the measurement `current_delta` shows a stuck clock: the
    /// time, its change, or the change of its change is zero.
    pub open spec fn is_stuck(self, current_delta: u64) -> bool {
        let delta2 = delta(self.last_delta, current_delta);
        let delta3 = delta(self.last_delta2, delta2);
        current_delta == 0 || delta2 == 0 || delta3 == 0
    }

    /// The state after the stuck test has seen `current_delta`: the time and
    /// its change are remembered, and the lowest bits of the time go to the
    /// proportion test.
    pub open spec fn stuck(self, current_delta: u64) -> JitterState {
        JitterState {
            last_delta: current_delta,
            last_delta2: delta(self.last_delta, current_delta),
            ..self
        }.apt_insert(current_delta & APT_WORD_MASK)
    }

    /// The state after `time` is folded into the pool, which a stuck
    /// measurement leaves as it is.
    pub open spec fn lfsr_time(self, time: u64, stuck: bool) -> JitterState {
        if stuck {
            self
        } else {
            JitterState { data: lfsr(self.data, time), ..self }
        }
    }

    /// The state after the memory is touched; `clock` is the reading of the
    /// clock that decides how often beyond the minimum.
    pub open spec fn memaccess(self, clock: u64) -> JitterState {
        let loops = (MEMORY_ACCESS_LOOPS + loop_shuffle(clock ^ self.data, 7, 0)) as nat;
        JitterState {
            mem: touched(self.mem, self.mem_location, loops).0,
            mem_location: touched(self.mem, self.mem_location, loops).1,
            ..self
        }
    }

    /// The state after one measurement: the memory is touched, the time
    /// since the last reading is measured from the reading `time`, tested,
    /// and folded into the pool. The readings `clock_mem` and `clock_lfsr`
    /// only decide how much work is done.
    pub open spec fn measure_jitter(self, clock_mem: u64, time: u64, clock_lfsr: u64)
        -> JitterState {
        let touched = self.memaccess(clock_mem);
        let current_delta = delta(touched.prev_time, time);
        let timed = JitterState { prev_time: time, ..touched };
        timed.stuck(current_delta).lfsr_time(current_delta, timed.is_stuck(current_delta))
    }

    /// Whether the measurement from the reading `time` shows a stuck clock.
    pub open spec fn measures_stuck(self, time: u64) -> bool {
        self.is_stuck(delta(self.prev_time, time))
    }

    /// Whether `collected` good measurements fill the pool: there is one
    /// for each bit, times the oversampling rate.
    pub open spec fn is_full(self, collected: u64) -> bool {
        collected >= DATA_SIZE_BITS * self.osr
    }
}

/// A generator of entropy from the jitter of the CPU's execution time.
pub struct JitterRng {
    data: u64,
    prev_time: u64,
    last_delta: u64,
    last_delta2: u64,
    osr: u64,
    mem: Vec<u8>,
    mem_location: u64,
    mem_blocks: u64,
    mem_block_size: u64,
    mem_access_loops: u64,
    apt_observations: u64,
    apt_count: u64,
    apt_base: u64,
    apt_base_set: bool,
    health_failure: bool,
}

impl View for JitterRng {
    type V = JitterState;

    closed spec fn view(&self) -> JitterState {
        JitterState {
            data: self.data,
            prev_time: self.prev_time,
            last_delta: self.last_delta,
            last_delta2: self.last_delta2,
            osr: self.osr,
            mem: self.mem@,
            mem_location: self.mem_location,
            apt_observations: self.apt_observations,
            apt_count: self.apt_count,
            apt_base: self.apt_base,
            apt_base_set: self.apt_base_set,
            health_failure: self.health_failure,
        }
    }
}

impl JitterRng {
    /// The sizes of the memory and the number of accesses are the constant
    /// ones.
    pub closed spec fn sized(&self) -> bool {
        &&& self.mem_blocks == MEMORY_BLOCKS
        &&& self.mem_block_size == MEMORY_BLOCK_SIZE
        &&& self.mem_access_loops == MEMORY_ACCESS_LOOPS
    }

    /// The state is well formed and the sizes are the constant ones.
    pub open spec fn wf(&self) -> bool {
        self@.wf() && self.sized()
    }

    /// A generator with an empty pool and zeroed memory that has measured
    /// nothing yet. An oversampling rate of 0 counts as 1.
    pub fn new(osr: u64) -> (rng: Self)
        requires
            DATA_SIZE_BITS * osr <= u64::MAX,
        ensures
            rng.wf(),
            rng@ == (JitterState {
                data: 0,
                prev_time: 0,
                last_delta: 0,
                last_delta2: 0,
                osr: if osr == 0 {
                    1
                } else {
                    osr
                },
                mem: Seq::new((MEMORY_BLOCK_SIZE * MEMORY_BLOCKS) as nat, |i: int| 0u8),
                mem_location: 0,
                apt_observations: 0,
                apt_count: 0,
                apt_base: 0,
                apt_base_set: false,
                health_failure: false,
            }),
    {
        let mut mem: Vec<u8> = Vec::new();
        while mem.len() < 2048
            invariant
                mem@.len() <= 2048,
                forall|i: int| 0 <= i < mem@.len() ==> mem@[i] == 0,
            decreases 2048 - mem@.len(),
        {
            mem.push(0);
        }
        let rng = JitterRng {
            data: 0,
            prev_time: 0,
            last_delta: 0,
            last_delta2: 0,
            osr: if osr == 0 {
                1
            } else {
                osr
            },
            mem,
            mem_location: 0,
            mem_blocks: MEMORY_BLOCKS,
            mem_block_size: MEMORY_BLOCK_SIZE,
            mem_access_loops: MEMORY_ACCESS_LOOPS,
            apt_observations: 0,
            apt_count: 0,
            apt_base: 0,
            apt_base_set: false,
            health_failure: false,
        };
        assert(rng@.mem =~= Seq::new((MEMORY_BLOCK_SIZE * MEMORY_BLOCKS) as nat, |i: int| 0u8));
        rng
    }

    /// The entropy pool.
    pub fn data(&self) -> (data: u64)
        ensures
            data == self@.data,
    {
        self.data
    }

    /// The lower half of the entropy pool.
    pub fn data32(&self) -> (data: u32)
        ensures
            data == self@.data % 0x1_0000_0000,
    {
        let data = self.data;
        assert(data & 0xFFFF_FFFF == data % 0x1_0000_0000) by (bit_vector);
        (data & 0xFFFF_FFFF) as u32
    }

    /// The oversampling rate.
    pub fn osr(&self) -> (osr: u64)
        ensures
            osr == self@.osr,
    {
        self.osr
    }

    /// Whether the proportion test has ever failed.
    pub fn health_failure(&self) -> (failed: bool)
        ensures
            failed == self@.health_failure,
    {
        self.health_failure
    }

    /// Starts a new window of the proportion test.
    pub fn apt_reset(&mut self, delta_masked: u64)
        ensures
            final(self).sized() == old(self).sized(),
            final(self)@ == old(self)@.apt_reset(delta_masked),
    {
        self.apt_count = 0;
        self.apt_base = delta_masked;
        self.apt_observations = 0;
    }

    /// Shows the measurement `delta_masked` to the proportion test.
    pub fn apt_insert(&mut self, delta_masked: u64)
        requires
            old(self).wf(),
        ensures
            final(self).wf(),
            final(self)@ == old(self)@.apt_insert(delta_masked),
    {
        if !self.apt_base_set {
            self.apt_base = delta_masked;
            self.apt_base_set = true;
            return ;
        }
        if delta_masked == self.apt_base {
            self.apt_count += 1;
            if self.apt_count >= APT_CUTOFF {
                self.health_failure = true;
            }
        }
        self.apt_observations += 1;
        if self.apt_observations >= APT_WINDOW_SIZE {
            self.apt_reset(delta_masked);
        }
    }

    /// Shows the measured time `current_delta` to the stuck test and the
    /// proportion test, and says whether the clock looks stuck.
    pub fn stuck(&mut self, current_delta: u64) -> (stuck: bool)
        requires
            old(self).wf(),
        ensures
            final(self).wf(),
            final(self)@ == old(self)@.stuck(current_delta),
            stuck == old(self)@.is_stuck(current_delta),
    {
        let delta2 = delta(self.last_delta, current_delta);
        let delta3 = delta(self.last_delta2, delta2);
        let delta_masked = current_delta & APT_WORD_MASK;
        self.last_delta = current_delta;
        self.last_delta2 = delta2;
        self.apt_insert(delta_masked);
        if current_delta == 0 || delta2 == 0 || delta3 == 0 {
            return true;
        }
        false
    }

    /// Folds the measured time `time` into the pool, unless the measurement
    /// was stuck. The work is done as often as the reading `clock` decides;
    /// each time gives the same pool.
    pub fn lfsr_time(&mut self, clock: u64, time: u64, stuck: bool)
        requires
            old(self).wf(),
        ensures
            final(self).wf(),
            final(self)@ == old(self)@.lfsr_time(time, stuck),
    {
        let lfsr_loop_cnt = loop_shuffle(clock ^ self.data, 4, 0);
        assert(1u64 << 0u64 == 1) by (bit_vector);
        let mut new: u64 = 0;
        let mut round: u64 = 0;
        while round < lfsr_loop_cnt
            invariant
                round <= lfsr_loop_cnt,
                self.data == old(self).data,
                round > 0 ==> new == lfsr(self.data, time),
            decreases lfsr_loop_cnt - round,
        {
            new = self.data;
            let mut i: u64 = 1;
            while i < DATA_SIZE_BITS
                invariant
                    1 <= i <= DATA_SIZE_BITS,
                    lfsr_from(new, time, i) == lfsr(self.data, time),
                decreases DATA_SIZE_BITS - i,
            {
                let mut tmp = time << (DATA_SIZE_BITS - i);
                tmp ^= (new >> 63) & 1;
                tmp ^= (new >> 60) & 1;
                tmp ^= (new >> 55) & 1;
                tmp ^= (new >> 30) & 1;
                tmp ^= (new >> 27) & 1;
                tmp ^= (new >> 22) & 1;
                new <<= 1;
                new ^= tmp;
                i += 1;
            }
            round += 1;
        }
        if !stuck {
            self.data = new;
        }
    }

    /// Touches the memory, as often as the reading `clock` decides beyond
    /// the minimum.
    pub fn memaccess(&mut self, clock: u64)
        requires
            old(self).wf(),
        ensures
            final(self).wf(),
            final(self)@ == old(self)@.memaccess(clock),
    {
        let acc_loop_cnt = loop_shuffle(clock ^ self.data, 7, 0);
        assert(1u64 << 0u64 == 1 && (1u64 << 7u64) == 128) by (bit_vector);
        let wrap = self.mem_block_size * self.mem_blocks;
        let loops = self.mem_access_loops + acc_loop_cnt;
        let mut done: u64 = 0;
        while done < loops
            invariant
                done <= loops,
                self.wf(),
                wrap == MEMORY_BLOCK_SIZE * MEMORY_BLOCKS,
                self@ == (JitterState {
                    mem: self@.mem,
                    mem_location: self@.mem_location,
                    ..old(self)@
                }),
                touched(self@.mem, self@.mem_location, (loops - done) as nat) == touched(
                    old(self)@.mem,
                    old(self)@.mem_location,
                    loops as nat,
                ),
            decreases loops - done,
        {
            let location = self.mem_location as usize;
            let value = self.mem[location].wrapping_add(1);
            self.mem[location] = value;
            self.mem_location = self.mem_location + self.mem_block_size - 1;
            self.mem_location %= wrap;
            done += 1;
        }
    }

    /// Takes one measurement: touches the memory, measures the time since
    /// the last reading from the reading `time`, tests it and folds it into
    /// the pool. Returns whether the clock looks stuck. The readings
    /// `clock_mem` and `clock_lfsr` decide how much work is done.
    pub fn measure_jitter(&mut self, clock_mem: u64, time: u64, clock_lfsr: u64) -> (stuck: bool)
        requires
            old(self).wf(),
        ensures
            final(self).wf(),
            final(self)@ == old(self)@.measure_jitter(clock_mem, time, clock_lfsr),
            stuck == old(self)@.measures_stuck(time),
    {
        self.memaccess(clock_mem);
        let current_delta = delta(self.prev_time, time);
        self.prev_time = time;
        let stuck = self.stuck(current_delta);
        self.lfsr_time(clock_lfsr, current_delta, stuck);
        stuck
    }
}

impl JitterRng {
    /// One step of filling the pool, after `collected` good measurements:
    /// takes one more measurement, which counts if the clock did not look
    /// stuck. Returns the number of good measurements to go on with, or
    /// `None` when the pool is full.
    pub fn gen_entropy_step(&mut self, collected: u64, clock_mem: u64, time: u64, clock_lfsr: u64)
        -> (next: Option<u64>)
        requires
            old(self).wf(),
            !old(self)@.is_full(collected),
        ensures
            final(self).wf(),
            final(self)@ == old(self)@.measure_jitter(clock_mem, time, clock_lfsr),
            next == if old(self)@.measures_stuck(time) {
                Some(collected)
            } else if old(self)@.is_full((collected + 1) as u64) {
                None
            } else {
                Some((collected + 1) as u64)
            },
    {
        if self.measure_jitter(clock_mem, time, clock_lfsr) {
            return Some(collected);
        }
        let k = collected + 1;
        if k >= DATA_SIZE_BITS * self.osr {
            return None;
        }
        Some(k)
    }
}

/// The `i`-th byte of `word`, counted from the lowest.
pub open spec fn byte_of(word: u64, i: int) -> u8 {
    ((word >> ((8 * i) as u64)) & 0xff) as u8
}

/// Fills `dest` with the bytes of `words`, eight from each word, lowest
/// byte first.
pub fn fill_bytes(dest: &mut [u8], words: &[u64])
    requires
        old(dest)@.len() <= 8 * words@.len(),
    ensures
        final(dest)@.len() == old(dest)@.len(),
        forall|i: int|
            0 <= i < final(dest)@.len() ==> #[trigger] final(dest)@[i] == byte_of(
                words@[i / 8],
                i % 8,
            ),
{
    let mut i: usize = 0;
    while i < dest.len()
        invariant
            0 <= i <= dest@.len(),
            dest@.len() == old(dest)@.len(),
            dest@.len() <= 8 * words@.len(),
            forall|j: int| 0 <= j < i ==> #[trigger] dest@[j] == byte_of(words@[j / 8], j % 8),
        decreases dest@.len() - i,
    {
        let rn = words[i / 8];
        let shift = (8 * (i % 8)) as u64;
        assert(((rn & (0xFFu64 << shift)) >> shift) == ((rn >> shift) & 0xff) && ((rn >> shift)
            & 0xff) <= 0xff) by (bit_vector)
            requires
                shift < 64,
        ;
        dest[i] = ((rn & (0xFF << shift)) >> shift) as u8;
        i += 1;
    }
}

} // verus!

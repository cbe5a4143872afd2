//! The delay line: a single-channel ring buffer whose length is a power of
//! two, written one sample at a time and read back at an integer delay
//! together with the neighbours that a cubic interpolator needs to read
//! between that delay and the next.
//!
//! The abstract state of a line is the sequence of its last `capacity`
//! samples, oldest first. Writing a sample shifts that sequence by one
//! (a shift register); reading at delay `d` looks `d` samples behind the
//! newest one, ages being taken modulo the capacity.
use vstd::prelude::*;
use vstd::arithmetic::power2::{pow2, lemma_pow2_unfold, lemma_pow2_strictly_increases, lemma2_to64, lemma2_to64_rest};
use vstd::bits::lemma_usize_low_bits_mask_is_mod;

verus! {

/// The largest request for which the next power of two still fits in a `usize`.
pub open spec fn max_power_request() -> int {
    (usize::MAX as int + 1) / 2
}

/// The largest number of samples that `DelayLine::new` accepts.
pub fn max_power_request_value() -> (r: usize)
    ensures
        r == max_power_request(),
{
    usize::MAX / 2 + 1
}

/// `p` is a power of two whose exponent fits in a `usize`.
pub open spec fn is_usize_power_of_two(p: int) -> bool {
    exists|k: nat| k < usize::BITS && #[trigger] pow2(k) == p
}

/// The sample written `d` writes before the newest one in `history`
/// (oldest first); `d == 0` is the newest sample. Delays are taken modulo the
/// length of the history, as the ring wraps.
pub open spec fn delayed_by<T>(history: Seq<T>, d: int) -> T {
    history[(history.len() - 1 - d) % (history.len() as int)]
}

/// The history that a line of contents `history` holds after it has been
/// written the samples of `xs`, in order.
pub open spec fn after_writes<T>(history: Seq<T>, xs: Seq<T>) -> Seq<T> {
    (history + xs).subrange(xs.len() as int, (history.len() + xs.len()) as int)
}

/// A line of `capacity` samples that all hold `silence`.
pub open spec fn silent_history<T>(capacity: nat, silence: T) -> Seq<T> {
    Seq::new(capacity, |_j: int| silence)
}

/// Writing one sample to a line is writing the one-sample sequence: the
/// oldest sample leaves and the new one becomes the newest.
pub proof fn lemma_write_is_single_write<T>(history: Seq<T>, x: T)
    requires
        history.len() > 0,
    ensures
        history.drop_first().push(x) == after_writes(history, seq![x]),
{
    assert(history.drop_first().push(x) =~= after_writes(history, seq![x]));
}

/// Writing `xs` and then `ys` leaves the line as writing `xs + ys` does,
/// and writes never change the number of samples a line holds.
pub proof fn lemma_writes_compose<T>(history: Seq<T>, xs: Seq<T>, ys: Seq<T>)
    ensures
        after_writes(after_writes(history, xs), ys) == after_writes(history, xs + ys),
        after_writes(history, xs).len() == history.len(),
{
    assert(after_writes(after_writes(history, xs), ys) =~= after_writes(history, xs + ys));
}

/// A sample that was written and then followed by `d` further writes is
/// read back at delay `d`, for every `d` below the capacity of the line.
pub proof fn lemma_sample_returns_after_delay<T>(history: Seq<T>, xs: Seq<T>, k: int)
    requires
        0 <= k < xs.len(),
        xs.len() - 1 - k < history.len(),
    ensures
        delayed_by(after_writes(history, xs), xs.len() - 1 - k) == xs[k],
{
    let h = after_writes(history, xs);
    let d = xs.len() - 1 - k;
    let i = h.len() - 1 - d;
    lemma_mod_once(i, h.len() as int);
    assert(h[i] == (history + xs)[xs.len() + i]);
}

/// A silent line reads silence at every delay.
pub proof fn lemma_silent_line_reads_silence<T>(capacity: nat, silence: T, d: int)
    requires
        capacity > 0,
    ensures
        delayed_by(silent_history(capacity, silence), d) == silence,
{
    vstd::arithmetic::div_mod::lemma_mod_bound(capacity - 1 - d, capacity as int);
}

/// The smallest power of two that is at least `n` (and 1 for `n == 0`),
/// as std's `usize::next_power_of_two` computes it.
pub fn next_power_of_two(n: usize) -> (p: usize)
    requires
        n <= max_power_request(),
    ensures
        is_usize_power_of_two(p as int),
        p >= n,
        p == 1 || p / 2 < n,
        p <= max_power_request(),
{
    let mut p: usize = 1;
    let ghost mut k: nat = 0;
    proof {
        lemma_pow_facts();
    }
    while p < n
        invariant
            p as int == pow2(k),
            k < usize::BITS,
            n <= max_power_request(),
            p == 1 || p / 2 < n,
            1 <= p,
        decreases usize::MAX - p,
    {
        proof {
            lemma_pow2_unfold(k + 1);
        }
        p = p * 2;
        proof {
            k = k + 1;
            lemma_pow_facts();
            if k >= usize::BITS {
                if k > usize::BITS {
                    lemma_pow2_strictly_increases(usize::BITS as nat, k);
                }
                assert(false);
            }
        }
    }
    proof {
        lemma_pow_facts();
        if k < usize::BITS - 1 {
            lemma_pow2_strictly_increases(k, (usize::BITS - 1) as nat);
        }
    }
    p
}

/// The powers of two at the edges of the `usize` range.
proof fn lemma_pow_facts()
    ensures
        pow2(0) == 1,
        pow2(1) == 2,
        pow2((usize::BITS - 1) as nat) == max_power_request(),
        pow2(usize::BITS as nat) == usize::MAX + 1,
{
    lemma2_to64();
    lemma2_to64_rest();
}

/// A single-channel ring buffer of samples of type `T`. Its capacity is a
/// power of two so that positions wrap with a bit mask.
pub struct DelayLine<T: Copy> {
    buffer: Vec<T>,
    write_idx: usize,
    capacity: usize,
    silence: T,
    log2_capacity: Ghost<nat>,
}

impl<T: Copy> View for DelayLine<T> {
    type V = Seq<T>;

    /// The last `capacity` samples, oldest first.
    closed spec fn view(&self) -> Seq<T> {
        Seq::new(
            self.capacity as nat,
            |j: int|
                if self.write_idx + j < self.capacity {
                    self.buffer@[self.write_idx + j]
                } else {
                    self.buffer@[self.write_idx + j - self.capacity]
                },
        )
    }
}

/// Facts about `%` on values at most one period away from `[0, c)`.
proof fn lemma_mod_once(x: int, c: int)
    requires
        c > 0,
        -c <= x < 2 * c,
    ensures
        x < 0 ==> x % c == x + c,
        0 <= x < c ==> x % c == x,
        c <= x ==> x % c == x - c,
{
    if x < 0 {
        vstd::arithmetic::div_mod::lemma_fundamental_div_mod_converse_mod(x, c, -1, x + c);
    } else if x < c {
        vstd::arithmetic::div_mod::lemma_fundamental_div_mod_converse_mod(x, c, 0, x);
    } else {
        vstd::arithmetic::div_mod::lemma_fundamental_div_mod_converse_mod(x, c, 1, x - c);
    }
}

impl<T: Copy> DelayLine<T> {
    /// The internal invariant: the buffer holds `capacity` samples, the
    /// capacity is a power of two of at least 2, and the write position is
    /// inside the buffer.
    pub closed spec fn well_formed(&self) -> bool {
        &&& self.buffer@.len() == self.capacity
        &&& self.capacity as int == pow2(self.log2_capacity@)
        &&& 1 <= self.log2_capacity@ < usize::BITS
        &&& 2 <= self.capacity <= max_power_request()
        &&& self.write_idx < self.capacity
    }

    /// The value that the line holds where nothing was written yet.
    pub closed spec fn silence_value(&self) -> T {
        self.silence
    }

    /// The buffer position that the next write fills.
    pub closed spec fn write_position(&self) -> nat {
        self.write_idx as nat
    }

    /// `x & (capacity - 1)` is `x % capacity`.
    proof fn lemma_mask(&self, x: usize)
        requires
            self.well_formed(),
        ensures
            x & ((self.capacity - 1) as usize) == x % self.capacity,
    {
        lemma_usize_low_bits_mask_is_mod(x, self.log2_capacity@);
    }

    /// A line that can delay by at least `max_samples` samples. Its capacity
    /// is `max_samples` rounded up to a power of two, and at least 2; every
    /// sample in it is `silence`.
    pub fn new(max_samples: usize, silence: T) -> (line: Self)
        requires
            max_samples <= max_power_request(),
        ensures
            line.well_formed(),
            is_usize_power_of_two(line@.len() as int),
            line@.len() >= max_samples,
            line@.len() >= 2,
            line@.len() == 2 || line@.len() / 2 < max_samples,
            line@ == silent_history(line@.len(), silence),
            line.silence_value() == silence,
            line.write_position() == 0,
    {
        let p = next_power_of_two(max_samples);
        let capacity = if p < 2 { 2 } else { p };
        let ghost k: nat = choose|k: nat| k < usize::BITS && #[trigger] pow2(k) == p as int;
        let ghost log2: nat = if p < 2 { 1 } else { k };
        proof {
            lemma_pow_facts();
        }
        let mut buffer: Vec<T> = Vec::new();
        while buffer.len() < capacity
            invariant
                buffer.len() <= capacity,
                forall|i: int| 0 <= i < buffer.len() ==> buffer@[i] == silence,
            decreases capacity - buffer.len(),
        {
            buffer.push(silence);
        }
        let line = DelayLine { buffer, write_idx: 0, capacity, silence, log2_capacity: Ghost(log2) };
        proof {
            assert(exists|k: nat| k < usize::BITS && #[trigger] pow2(k) == capacity as int);
            assert(line@ =~= silent_history(capacity as nat, silence));
        }
        line
    }

    /// Number of samples the line holds.
    pub fn capacity(&self) -> (c: usize)
        requires
            self.well_formed(),
        ensures
            c == self@.len(),
    {
        self.capacity
    }

    /// Fills the line with its silence value and moves the write position
    /// back to the start.
    pub fn reset(&mut self)
        requires
            old(self).well_formed(),
        ensures
            final(self).well_formed(),
            final(self)@ == silent_history(old(self)@.len(), old(self).silence_value()),
            final(self).silence_value() == old(self).silence_value(),
            final(self).write_position() == 0,
    {
        let mut i: usize = 0;
        while i < self.capacity
            invariant
                self.well_formed(),
                self.capacity == old(self).capacity,
                self.silence == old(self).silence,
                self.log2_capacity == old(self).log2_capacity,
                self.write_idx == old(self).write_idx,
                i <= self.capacity,
                forall|j: int| 0 <= j < i ==> self.buffer@[j] == self.silence,
            decreases self.capacity - i,
        {
            let s = self.silence;
            self.buffer.set(i, s);
            i = i + 1;
        }
        self.write_idx = 0;
        proof {
            assert(self@ =~= silent_history(old(self)@.len(), old(self).silence_value()));
        }
    }

    /// Writes one sample: the oldest sample leaves the line and `x` becomes
    /// the newest.
    pub fn write(&mut self, x: T)
        requires
            old(self).well_formed(),
        ensures
            final(self).well_formed(),
            final(self)@ == old(self)@.drop_first().push(x),
            final(self).silence_value() == old(self).silence_value(),
            final(self).write_position() == (old(self).write_position() + 1) % old(self)@.len(),
    {
        let mask = self.capacity - 1;
        proof {
            self.lemma_mask(self.write_idx);
            lemma_mod_once(self.write_idx as int, self.capacity as int);
            self.lemma_mask((self.write_idx + 1) as usize);
            lemma_mod_once(self.write_idx + 1, self.capacity as int);
        }
        let i = self.write_idx & mask;
        self.buffer.set(i, x);
        self.write_idx = (self.write_idx + 1) & mask;
        proof {
            let cap = self.capacity as int;
            let w = old(self).write_idx as int;
            assert forall|j: int| 0 <= j < cap implies #[trigger] self@[j] == old(self)@.drop_first().push(x)[j] by {
                if j < cap - 1 {
                    assert(old(self)@.drop_first().push(x)[j] == old(self)@[j + 1]);
                } else {
                    assert(old(self)@.drop_first().push(x)[j] == x);
                }
            }
            assert(self@ =~= old(self)@.drop_first().push(x));
        }
    }

    /// The four samples around integer delay `d`, for a cubic interpolator
    /// that reads at a fractional delay between `d` and `d + 1`: the samples
    /// written `d - 1`, `d`, `d + 1` and `d + 2` writes before the newest
    /// one, delays taken modulo the capacity. For `1 <= d < capacity - 2`
    /// none of the four wraps.
    pub fn read_neighbors(&self, d: usize) -> (r: (T, T, T, T))
        requires
            self.well_formed(),
            d < self@.len(),
        ensures
            r.0 == delayed_by(self@, d - 1),
            r.1 == delayed_by(self@, d as int),
            r.2 == delayed_by(self@, d + 1),
            r.3 == delayed_by(self@, d + 2),
    {
        let mask = self.capacity - 1;
        let cap = self.capacity;
        // `base` holds the sample at delay `d`; older samples sit before it.
        let base = (self.write_idx + cap - d - 1) & mask;
        proof {
            self.lemma_mask((self.write_idx + cap - d - 1) as usize);
            lemma_mod_once(self.write_idx + cap - d - 1, cap as int);
            self.lemma_mask((base + 1) as usize);
            lemma_mod_once(base + 1, cap as int);
            self.lemma_mask((base + cap - 1) as usize);
            lemma_mod_once(base + cap - 1, cap as int);
            self.lemma_mask((base + cap - 2) as usize);
            lemma_mod_once(base + cap - 2, cap as int);
            lemma_mod_once(cap - 1 - (d - 1), cap as int);
            lemma_mod_once(cap - 1 - d, cap as int);
            lemma_mod_once(cap - 1 - (d + 1), cap as int);
            lemma_mod_once(cap - 1 - (d + 2), cap as int);
        }
        let i0 = (base + 1) & mask;
        let i1 = base;
        let i2 = (base + cap - 1) & mask;
        let i3 = (base + cap - 2) & mask;
        (self.buffer[i0], self.buffer[i1], self.buffer[i2], self.buffer[i3])
    }
}

} // verus!

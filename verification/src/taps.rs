//! Which taps are read, which of them sound, at what pitch, and which one
//! feeds the feedback loop; and the integer steps of the tap editor.
use vstd::prelude::*;
use crate::params::NUM_TAPS;

verus! {

/// The number of taps that are read when `requested` taps are asked for:
/// the request clamped into `1..=NUM_TAPS`. A negative request wraps to a
/// huge unsigned count and so selects every tap.
pub open spec fn active_count_for(requested: int) -> int {
    if requested < 0 || requested > NUM_TAPS {
        NUM_TAPS as int
    } else if requested < 1 {
        1
    } else {
        requested
    }
}

/// The index of the tap that feeds the feedback loop, for a requested
/// one-based tap: that tap when it is among the `n_active` taps read, the
/// first tap for a request of 0, and otherwise (beyond the taps read, or
/// negative, which wraps to a huge unsigned number) the last tap read, never
/// past the last tap.
pub open spec fn feedback_index_for(requested: int, n_active: int) -> int {
    if 1 <= requested <= n_active && requested <= NUM_TAPS {
        requested - 1
    } else if requested == 0 || n_active < 1 {
        0
    } else if n_active > NUM_TAPS {
        NUM_TAPS - 1
    } else {
        n_active - 1
    }
}

/// `value` clamped into `lo..=hi`.
pub open spec fn clamp(value: int, lo: int, hi: int) -> int {
    if value < lo { lo } else if value > hi { hi } else { value }
}

/// Number of taps that are read, for a requested tap count.
pub fn active_tap_count(requested: i32) -> (n: usize)
    ensures
        n == active_count_for(requested as int),
        1 <= n <= NUM_TAPS,
{
    if requested < 0 || requested > 16 {
        NUM_TAPS
    } else if requested < 1 {
        1
    } else {
        requested as usize
    }
}

/// Whether tap `index` sounds: it is enabled and among the taps that are read.
pub fn tap_is_live(enabled: bool, index: usize, n_active: usize) -> (live: bool)
    ensures
        live == (enabled && index < n_active),
{
    enabled && index < n_active
}

/// Index of the tap whose output feeds the feedback loop.
pub fn feedback_tap_index(requested: i32, n_active: usize) -> (i: usize)
    ensures
        i == feedback_index_for(requested as int, n_active as int),
        i < NUM_TAPS,
        1 <= n_active ==> i < n_active,
{
    let limited = if requested < 0 || requested as usize > n_active {
        n_active
    } else {
        requested as usize
    };
    let zero_based = if limited < 1 { 0 } else { limited - 1 };
    if zero_based > NUM_TAPS - 1 {
        NUM_TAPS - 1
    } else {
        zero_based
    }
}

/// What one block of audio does with each tap.
pub struct TapPlan {
    /// Number of taps that are read, `1..=NUM_TAPS`.
    pub n_active: usize,
    /// For each tap, whether it sounds.
    pub live: Vec<bool>,
    /// For each tap, its pitch shift in semitones (0 for a silent tap).
    pub semitones: Vec<i32>,
    /// The tap whose output feeds the feedback loop.
    pub feedback_index: usize,
}

/// Decides, for one block, how many taps are read, which of them sound, at
/// what pitch each one is read, and which tap feeds back.
pub fn plan_taps(requested_count: i32, enabled: &Vec<bool>, pitch: &Vec<i32>, feedback_tap: i32) -> (plan: TapPlan)
    requires
        enabled.len() == NUM_TAPS,
        pitch.len() == NUM_TAPS,
    ensures
        plan.n_active == active_count_for(requested_count as int),
        plan.feedback_index == feedback_index_for(feedback_tap as int, plan.n_active as int),
        plan.live.len() == NUM_TAPS,
        plan.semitones.len() == NUM_TAPS,
        forall|i: int| 0 <= i < NUM_TAPS ==> #[trigger] plan.live[i] == (enabled[i] && i < plan.n_active),
        forall|i: int| 0 <= i < NUM_TAPS ==> #[trigger] plan.semitones[i] == if plan.live[i] { pitch[i] } else { 0 },
{
    let n_active = active_tap_count(requested_count);
    let mut live: Vec<bool> = Vec::new();
    let mut semitones: Vec<i32> = Vec::new();
    let mut i: usize = 0;
    while i < NUM_TAPS
        invariant
            enabled.len() == NUM_TAPS,
            pitch.len() == NUM_TAPS,
            i <= NUM_TAPS,
            live.len() == i,
            semitones.len() == i,
            forall|j: int| 0 <= j < i ==> #[trigger] live[j] == (enabled[j] && j < n_active),
            forall|j: int| 0 <= j < i ==> #[trigger] semitones[j] == if live[j] { pitch[j] } else { 0 },
        decreases NUM_TAPS - i,
    {
        let l = tap_is_live(enabled[i], i, n_active);
        live.push(l);
        semitones.push(if l { pitch[i] } else { 0 });
        i = i + 1;
    }
    let feedback_index = feedback_tap_index(feedback_tap, n_active);
    TapPlan { n_active, live, semitones, feedback_index }
}

/// The feedback tap is always one of the taps that are read, whatever tap is
/// requested: block processing reads taps `0..n_active` and takes the
/// feedback signal from one of them.
pub proof fn lemma_feedback_tap_is_read(requested: int, n_active: int)
    requires
        1 <= n_active <= NUM_TAPS,
    ensures
        0 <= feedback_index_for(requested, n_active) < n_active,
{
}

/// The number of taps read is always between one and `NUM_TAPS`.
pub proof fn lemma_active_count_in_range(requested: int)
    ensures
        1 <= active_count_for(requested) <= NUM_TAPS,
{
}

/// Pitch after one click on the "+" button: one semitone up, at most +12.
pub fn pitch_step_up(semitones: i32) -> (r: i32)
    requires
        semitones < i32::MAX,
    ensures
        r == if semitones + 1 > 12 { 12 } else { semitones + 1 },
{
    let up = semitones + 1;
    if up > 12 { 12 } else { up }
}

/// Pitch after one click on the "-" button: one semitone down, at least -12.
pub fn pitch_step_down(semitones: i32) -> (r: i32)
    requires
        semitones > i32::MIN,
    ensures
        r == if semitones - 1 < -12 { -12 } else { semitones - 1 },
{
    let down = semitones - 1;
    if down < -12 { -12 } else { down }
}

/// Tap count after dragging or scrolling by `steps`: clamped into `1..=NUM_TAPS`.
pub fn tap_count_after_steps(count: i32, steps: i32) -> (r: i32)
    requires
        i32::MIN <= count + steps <= i32::MAX,
    ensures
        r == clamp(count + steps, 1, NUM_TAPS as int),
        1 <= r <= NUM_TAPS,
        1 <= count + steps <= NUM_TAPS ==> r == count + steps,
        count + steps < 1 ==> r == 1,
        count + steps > NUM_TAPS ==> r == NUM_TAPS,
{
    let n = count + steps;
    if n < 1 {
        1
    } else if n > 16 {
        16
    } else {
        n
    }
}

/// Clamping gives a value inside the range, leaves a value that is already
/// inside unchanged, and moves one outside to the nearer end.
pub proof fn lemma_clamp_law(value: int, lo: int, hi: int)
    requires
        lo <= hi,
    ensures
        lo <= clamp(value, lo, hi) <= hi,
        lo <= value <= hi ==> clamp(value, lo, hi) == value,
        value < lo ==> clamp(value, lo, hi) == lo,
        value > hi ==> clamp(value, lo, hi) == hi,
{
}

/// A tap count already in range asks for exactly that many taps; a request
/// below one reads one tap and anything else reads every tap.
pub proof fn lemma_active_count_keeps_counts_in_range(requested: int)
    ensures
        1 <= requested <= NUM_TAPS ==> active_count_for(requested) == requested,
        requested == 0 ==> active_count_for(requested) == 1,
        (requested < 0 || requested > NUM_TAPS) ==> active_count_for(requested) == NUM_TAPS,
{
}

/// A requested feedback tap among the taps read is the tap used (made
/// zero-based); otherwise the last tap read is used (the first for 0).
pub proof fn lemma_feedback_follows_request(requested: int, n_active: int)
    requires
        1 <= n_active <= NUM_TAPS,
    ensures
        1 <= requested <= n_active ==> feedback_index_for(requested, n_active) == requested - 1,
        requested == 0 ==> feedback_index_for(requested, n_active) == 0,
        (requested < 0 || requested > n_active) ==> feedback_index_for(requested, n_active) == n_active - 1,
{
}

/// The pitch buttons keep a pitch that is in range in range.
pub proof fn lemma_pitch_steps_stay_in_range(semitones: int)
    requires
        -12 <= semitones <= 12,
    ensures
        -12 <= (if semitones + 1 > 12 { 12 } else { semitones + 1 }) <= 12,
        -12 <= (if semitones - 1 < -12 { -12 } else { semitones - 1 }) <= 12,
{
}

} // verus!

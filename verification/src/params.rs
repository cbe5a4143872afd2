//! Plugin-wide constants, the channel mode, the tempo-sync division table and
//! the labels that the editor shows.
use vstd::prelude::*;

verus! {

/// Number of taps per channel.
pub const NUM_TAPS: usize = 16;

/// Number of entries of the tempo-sync division table.
pub const NUM_SYNC_DIVS: usize = 16;

/// How the two input channels are treated.
#[derive(PartialEq, Eq, Structural, Clone, Copy, Debug)]
pub enum ChannelMode {
    Stereo,
    MidSide,
    Mono,
}

/// Length of division `i` of the sync table, in beats, as
/// (numerator, denominator).
pub open spec fn sync_div_beats(i: int) -> (nat, nat) {
    if i == 0 { (1, 32) }
    else if i == 1 { (1, 24) }
    else if i == 2 { (1, 16) }
    else if i == 3 { (1, 12) }
    else if i == 4 { (3, 32) }
    else if i == 5 { (1, 8) }
    else if i == 6 { (1, 6) }
    else if i == 7 { (3, 16) }
    else if i == 8 { (1, 4) }
    else if i == 9 { (1, 3) }
    else if i == 10 { (3, 8) }
    else if i == 11 { (1, 2) }
    else if i == 12 { (3, 4) }
    else if i == 13 { (1, 1) }
    else if i == 14 { (3, 2) }
    else { (2, 1) }
}

/// Label of division `i` of the sync table.
pub open spec fn sync_div_label(i: int) -> Seq<char> {
    if i == 0 { "1/32"@ }
    else if i == 1 { "1/16T"@ }
    else if i == 2 { "1/16"@ }
    else if i == 3 { "1/8T"@ }
    else if i == 4 { "1/16."@ }
    else if i == 5 { "1/8"@ }
    else if i == 6 { "1/4T"@ }
    else if i == 7 { "1/8."@ }
    else if i == 8 { "1/4"@ }
    else if i == 9 { "1/2T"@ }
    else if i == 10 { "1/4."@ }
    else if i == 11 { "1/2"@ }
    else if i == 12 { "1/2."@ }
    else if i == 13 { "1/1"@ }
    else if i == 14 { "1/1."@ }
    else { "2/1"@ }
}

/// Division `i` of the sync table: its length in beats as
/// (numerator, denominator), and its label.
pub fn sync_div(i: usize) -> (r: (u32, u32, &'static str))
    requires
        i < NUM_SYNC_DIVS,
    ensures
        r.0 == sync_div_beats(i as int).0,
        r.1 == sync_div_beats(i as int).1,
        r.2@ == sync_div_label(i as int),
{
    match i {
        0 => (1, 32, "1/32"),
        1 => (1, 24, "1/16T"),
        2 => (1, 16, "1/16"),
        3 => (1, 12, "1/8T"),
        4 => (3, 32, "1/16."),
        5 => (1, 8, "1/8"),
        6 => (1, 6, "1/4T"),
        7 => (3, 16, "1/8."),
        8 => (1, 4, "1/4"),
        9 => (1, 3, "1/2T"),
        10 => (3, 8, "1/4."),
        11 => (1, 2, "1/2"),
        12 => (3, 4, "1/2."),
        13 => (1, 1, "1/1"),
        14 => (3, 2, "1/1."),
        _ => (2, 1, "2/1"),
    }
}

/// The table index that a rounded position snaps to: the last entry for
/// positions past the end.
pub open spec fn snapped_index(raw_index: int) -> int {
    if raw_index > NUM_SYNC_DIVS - 1 { NUM_SYNC_DIVS - 1 } else { raw_index }
}

/// The sync division at the rounded table position `raw_index`, limited to
/// the last entry.
pub fn snap_to_div(raw_index: usize) -> (r: (u32, u32, &'static str))
    ensures
        raw_index < NUM_SYNC_DIVS ==> r.0 == sync_div_beats(raw_index as int).0
            && r.1 == sync_div_beats(raw_index as int).1
            && r.2@ == sync_div_label(raw_index as int),
        raw_index >= NUM_SYNC_DIVS ==> r.0 == sync_div_beats(NUM_SYNC_DIVS - 1).0
            && r.1 == sync_div_beats(NUM_SYNC_DIVS - 1).1
            && r.2@ == sync_div_label(NUM_SYNC_DIVS - 1),
        r.0 == sync_div_beats(snapped_index(raw_index as int)).0,
        r.1 == sync_div_beats(snapped_index(raw_index as int)).1,
        r.2@ == sync_div_label(snapped_index(raw_index as int)),
{
    let i = if raw_index > NUM_SYNC_DIVS - 1 { NUM_SYNC_DIVS - 1 } else { raw_index };
    sync_div(i)
}

/// The sync table is sorted from the shortest division to the longest:
/// every entry is strictly longer than every entry before it.
pub proof fn lemma_sync_divs_ascending(i: int, j: int)
    requires
        0 <= i < j < NUM_SYNC_DIVS,
    ensures
        sync_div_beats(i).0 * sync_div_beats(j).1 < sync_div_beats(j).0 * sync_div_beats(i).1,
{
    let (a, b) = sync_div_beats(i);
    let (c, d) = sync_div_beats(j);
    if i == 0 {
        assert(a == 1 && b == 32);
        assert(a * d == 1 * d && c * b == c * 32);
    } else if i == 1 {
        assert(a == 1 && b == 24);
        assert(a * d == 1 * d && c * b == c * 24);
    } else if i == 2 {
        assert(a == 1 && b == 16);
        assert(a * d == 1 * d && c * b == c * 16);
    } else if i == 3 {
        assert(a == 1 && b == 12);
        assert(a * d == 1 * d && c * b == c * 12);
    } else if i == 4 {
        assert(a == 3 && b == 32);
        assert(a * d == 3 * d && c * b == c * 32);
    } else if i == 5 {
        assert(a == 1 && b == 8);
        assert(a * d == 1 * d && c * b == c * 8);
    } else if i == 6 {
        assert(a == 1 && b == 6);
        assert(a * d == 1 * d && c * b == c * 6);
    } else if i == 7 {
        assert(a == 3 && b == 16);
        assert(a * d == 3 * d && c * b == c * 16);
    } else if i == 8 {
        assert(a == 1 && b == 4);
        assert(a * d == 1 * d && c * b == c * 4);
    } else if i == 9 {
        assert(a == 1 && b == 3);
        assert(a * d == 1 * d && c * b == c * 3);
    } else if i == 10 {
        assert(a == 3 && b == 8);
        assert(a * d == 3 * d && c * b == c * 8);
    } else if i == 11 {
        assert(a == 1 && b == 2);
        assert(a * d == 1 * d && c * b == c * 2);
    } else if i == 12 {
        assert(a == 3 && b == 4);
        assert(a * d == 3 * d && c * b == c * 4);
    } else if i == 13 {
        assert(a == 1 && b == 1);
        assert(a * d == 1 * d && c * b == c * 1);
    } else if i == 14 {
        assert(a == 3 && b == 2);
        assert(a * d == 3 * d && c * b == c * 2);
    }
}

/// Snapping never gives a shorter division for a later table position: the
/// selected length does not fall as the position rises.
pub proof fn lemma_snap_is_monotone(a: int, b: int)
    requires
        0 <= a <= b,
    ensures
        sync_div_beats(snapped_index(a)).0 * sync_div_beats(snapped_index(b)).1
            <= sync_div_beats(snapped_index(b)).0 * sync_div_beats(snapped_index(a)).1,
{
    if snapped_index(a) < snapped_index(b) {
        lemma_sync_divs_ascending(snapped_index(a), snapped_index(b));
    }
}

/// A position inside the table snaps to the entry at that very position;
/// only positions past the end snap to the last entry.
pub proof fn lemma_snap_keeps_positions_inside_the_table(raw_index: int)
    requires
        0 <= raw_index,
    ensures
        raw_index < NUM_SYNC_DIVS ==> snapped_index(raw_index) == raw_index,
        raw_index >= NUM_SYNC_DIVS ==> snapped_index(raw_index) == NUM_SYNC_DIVS - 1,
        0 <= snapped_index(raw_index) < NUM_SYNC_DIVS,
{
}

/// The value of the decimal digit `c`.
pub open spec fn digit_value(c: char) -> int {
    c as int - '0' as int
}

/// The value of a string of decimal digits.
pub open spec fn decimal_value(s: Seq<char>) -> int
    decreases s.len(),
{
    if s.len() == 0 {
        0
    } else {
        10 * decimal_value(s.drop_last()) + digit_value(s.last())
    }
}

/// Position of the first `/` in `s` (its length when there is none).
pub open spec fn slash_position(s: Seq<char>) -> int
    decreases s.len(),
{
    if s.len() == 0 {
        0
    } else if s[0] == '/' {
        0
    } else {
        1 + slash_position(s.drop_first())
    }
}

/// Whether a division label ends in "." (dotted, 1) or "T" (triplet, 2),
/// or in neither (straight, 0).
pub open spec fn label_kind(label: Seq<char>) -> int {
    if label.len() > 0 && label.last() == '.' {
        1
    } else if label.len() > 0 && label.last() == 'T' {
        2
    } else {
        0
    }
}

/// The note value "a/b" that a division label is built on, as (a, b),
/// without its dotted or triplet mark.
pub open spec fn label_note(label: Seq<char>) -> (int, int) {
    let body = if label_kind(label) != 0 { label.drop_last() } else { label };
    let slash = slash_position(body);
    (decimal_value(body.subrange(0, slash)), decimal_value(body.subrange(slash + 1, body.len() as int)))
}

/// The note length that a division label names, as (numerator,
/// denominator) of a beat: "a/b" is a/b, a trailing "." multiplies it by
/// 3/2 (dotted) and a trailing "T" by 2/3 (triplet).
pub open spec fn label_length(label: Seq<char>) -> (int, int) {
    let a = label_note(label).0;
    let b = label_note(label).1;
    if label_kind(label) == 1 { (3 * a, 2 * b) } else if label_kind(label) == 2 { (2 * a, 3 * b) } else { (a, b) }
}

/// Every label of the sync table names the length of its entry.
pub proof fn lemma_sync_labels_name_their_lengths(i: int)
    requires
        0 <= i < NUM_SYNC_DIVS,
    ensures
        label_length(sync_div_label(i)).0 * sync_div_beats(i).1
            == sync_div_beats(i).0 * label_length(sync_div_label(i)).1,
{
    reveal_with_fuel(decimal_value, 3);
    reveal_with_fuel(slash_position, 3);
    let l = sync_div_label(i);
    if i == 0 {
        reveal_strlit("1/32");
        assert(label_kind(l) == 0);
        assert(label_note(l).0 == 1 && label_note(l).1 == 32);
        assert(label_length(l).0 == 1 && label_length(l).1 == 32);
        assert(label_length(l).0 * 32 == 1 * label_length(l).1);
    } else if i == 1 {
        reveal_strlit("1/16T");
        assert(label_kind(l) == 2);
        assert(label_note(l).0 == 1 && label_note(l).1 == 16);
        assert(label_length(l).0 == 2 && label_length(l).1 == 48);
        assert(label_length(l).0 * 24 == 1 * label_length(l).1);
    } else if i == 2 {
        reveal_strlit("1/16");
        assert(label_kind(l) == 0);
        assert(label_note(l).0 == 1 && label_note(l).1 == 16);
        assert(label_length(l).0 == 1 && label_length(l).1 == 16);
        assert(label_length(l).0 * 16 == 1 * label_length(l).1);
    } else if i == 3 {
        reveal_strlit("1/8T");
        assert(label_kind(l) == 2);
        assert(label_note(l).0 == 1 && label_note(l).1 == 8);
        assert(label_length(l).0 == 2 && label_length(l).1 == 24);
        assert(label_length(l).0 * 12 == 1 * label_length(l).1);
    } else if i == 4 {
        reveal_strlit("1/16.");
        assert(label_kind(l) == 1);
        assert(label_note(l).0 == 1 && label_note(l).1 == 16);
        assert(label_length(l).0 == 3 && label_length(l).1 == 32);
        assert(label_length(l).0 * 32 == 3 * label_length(l).1);
    } else if i == 5 {
        reveal_strlit("1/8");
        assert(label_kind(l) == 0);
        assert(label_note(l).0 == 1 && label_note(l).1 == 8);
        assert(label_length(l).0 == 1 && label_length(l).1 == 8);
        assert(label_length(l).0 * 8 == 1 * label_length(l).1);
    } else if i == 6 {
        reveal_strlit("1/4T");
        assert(label_kind(l) == 2);
        assert(label_note(l).0 == 1 && label_note(l).1 == 4);
        assert(label_length(l).0 == 2 && label_length(l).1 == 12);
        assert(label_length(l).0 * 6 == 1 * label_length(l).1);
    } else if i == 7 {
        reveal_strlit("1/8.");
        assert(label_kind(l) == 1);
        assert(label_note(l).0 == 1 && label_note(l).1 == 8);
        assert(label_length(l).0 == 3 && label_length(l).1 == 16);
        assert(label_length(l).0 * 16 == 3 * label_length(l).1);
    } else if i == 8 {
        reveal_strlit("1/4");
        assert(label_kind(l) == 0);
        assert(label_note(l).0 == 1 && label_note(l).1 == 4);
        assert(label_length(l).0 == 1 && label_length(l).1 == 4);
        assert(label_length(l).0 * 4 == 1 * label_length(l).1);
    } else if i == 9 {
        reveal_strlit("1/2T");
        assert(label_kind(l) == 2);
        assert(label_note(l).0 == 1 && label_note(l).1 == 2);
        assert(label_length(l).0 == 2 && label_length(l).1 == 6);
        assert(label_length(l).0 * 3 == 1 * label_length(l).1);
    } else if i == 10 {
        reveal_strlit("1/4.");
        assert(label_kind(l) == 1);
        assert(label_note(l).0 == 1 && label_note(l).1 == 4);
        assert(label_length(l).0 == 3 && label_length(l).1 == 8);
        assert(label_length(l).0 * 8 == 3 * label_length(l).1);
    } else if i == 11 {
        reveal_strlit("1/2");
        assert(label_kind(l) == 0);
        assert(label_note(l).0 == 1 && label_note(l).1 == 2);
        assert(label_length(l).0 == 1 && label_length(l).1 == 2);
        assert(label_length(l).0 * 2 == 1 * label_length(l).1);
    } else if i == 12 {
        reveal_strlit("1/2.");
        assert(label_kind(l) == 1);
        assert(label_note(l).0 == 1 && label_note(l).1 == 2);
        assert(label_length(l).0 == 3 && label_length(l).1 == 4);
        assert(label_length(l).0 * 4 == 3 * label_length(l).1);
    } else if i == 13 {
        reveal_strlit("1/1");
        assert(label_kind(l) == 0);
        assert(label_note(l).0 == 1 && label_note(l).1 == 1);
        assert(label_length(l).0 == 1 && label_length(l).1 == 1);
        assert(label_length(l).0 * 1 == 1 * label_length(l).1);
    } else if i == 14 {
        reveal_strlit("1/1.");
        assert(label_kind(l) == 1);
        assert(label_note(l).0 == 1 && label_note(l).1 == 1);
        assert(label_length(l).0 == 3 && label_length(l).1 == 2);
        assert(label_length(l).0 * 2 == 3 * label_length(l).1);
    } else if i == 15 {
        reveal_strlit("2/1");
        assert(label_kind(l) == 0);
        assert(label_note(l).0 == 2 && label_note(l).1 == 1);
        assert(label_length(l).0 == 2 && label_length(l).1 == 1);
        assert(label_length(l).0 * 1 == 2 * label_length(l).1);
    }
}

/// Every label of the sync table is built on a plain note value: a whole
/// note or 1/2, 1/4, 1/8, 1/16 or 1/32 of one, or two whole notes.
pub proof fn lemma_sync_labels_use_note_values(i: int)
    requires
        0 <= i < NUM_SYNC_DIVS,
    ensures
        ({
            let (a, b) = label_note(sync_div_label(i));
            (a == 1 && (b == 1 || b == 2 || b == 4 || b == 8 || b == 16 || b == 32)) || (a == 2 && b == 1)
        }),
{
    reveal_with_fuel(decimal_value, 3);
    reveal_with_fuel(slash_position, 3);
    if i == 0 { reveal_strlit("1/32"); }
    else if i == 1 { reveal_strlit("1/16T"); }
    else if i == 2 { reveal_strlit("1/16"); }
    else if i == 3 { reveal_strlit("1/8T"); }
    else if i == 4 { reveal_strlit("1/16."); }
    else if i == 5 { reveal_strlit("1/8"); }
    else if i == 6 { reveal_strlit("1/4T"); }
    else if i == 7 { reveal_strlit("1/8."); }
    else if i == 8 { reveal_strlit("1/4"); }
    else if i == 9 { reveal_strlit("1/2T"); }
    else if i == 10 { reveal_strlit("1/4."); }
    else if i == 11 { reveal_strlit("1/2"); }
    else if i == 12 { reveal_strlit("1/2."); }
    else if i == 13 { reveal_strlit("1/1"); }
    else if i == 14 { reveal_strlit("1/1."); }
    else { reveal_strlit("2/1"); }
}

/// Every plain note value from 1/32 of a whole note up to two whole notes,
/// `2^e / 32` for `e` in `0..=6`, has a straight (neither dotted nor triplet)
/// entry in the sync table; the entry's index is returned.
pub proof fn lemma_sync_table_has_every_note_value(e: nat) -> (i: int)
    requires
        e <= 6,
    ensures
        0 <= i < NUM_SYNC_DIVS,
        label_kind(sync_div_label(i)) == 0,
        sync_div_beats(i).0 * 32 == vstd::arithmetic::power2::pow2(e) * sync_div_beats(i).1,
{
    vstd::arithmetic::power2::lemma2_to64();
    let i: int = if e == 0 { 0 } else if e == 1 { 2 } else if e == 2 { 5 } else if e == 3 { 8 }
        else if e == 4 { 11 } else if e == 5 { 13 } else { 15 };
    if i == 0 { reveal_strlit("1/32"); }
    else if i == 2 { reveal_strlit("1/16"); }
    else if i == 5 { reveal_strlit("1/8"); }
    else if i == 8 { reveal_strlit("1/4"); }
    else if i == 11 { reveal_strlit("1/2"); }
    else if i == 13 { reveal_strlit("1/1"); }
    else { reveal_strlit("2/1"); }
    i
}

/// Every division of the sync table is a positive number of beats.
pub proof fn lemma_sync_divs_positive(i: int)
    requires
        0 <= i < NUM_SYNC_DIVS,
    ensures
        sync_div_beats(i).0 > 0,
        sync_div_beats(i).1 > 0,
{
}

/// Labels of the upper and lower rows of the stem view in each channel mode.
pub open spec fn stem_labels_for(mode: ChannelMode) -> (Seq<char>, Seq<char>) {
    match mode {
        ChannelMode::Stereo => ("L"@, "R"@),
        ChannelMode::MidSide => ("M"@, "S"@),
        ChannelMode::Mono => ("M"@, "M"@),
    }
}

/// Labels of the upper and lower rows of the stem view.
pub fn stem_labels(mode: ChannelMode) -> (r: (&'static str, &'static str))
    ensures
        r.0@ == stem_labels_for(mode).0,
        r.1@ == stem_labels_for(mode).1,
{
    match mode {
        ChannelMode::Stereo => ("L", "R"),
        ChannelMode::MidSide => ("M", "S"),
        ChannelMode::Mono => ("M", "M"),
    }
}

/// Names of the two base-time knobs: mid and side in mid/side mode, left and
/// right otherwise.
pub fn time_knob_names(mode: ChannelMode) -> (r: (&'static str, &'static str))
    ensures
        mode == ChannelMode::MidSide ==> r.0@ == "TIME M"@ && r.1@ == "TIME S"@,
        mode != ChannelMode::MidSide ==> r.0@ == "TIME L"@ && r.1@ == "TIME R"@,
{
    if mode == ChannelMode::MidSide {
        ("TIME M", "TIME S")
    } else {
        ("TIME L", "TIME R")
    }
}

} // verus!

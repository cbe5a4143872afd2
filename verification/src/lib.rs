//! Verified core of a multitap delay: the power-of-two delay line, the rules
//! that decide which taps are read and which one feeds back, the tempo-sync
//! division table, and the labels that depend on the channel mode.
pub mod delay;
pub mod params;
pub mod taps;

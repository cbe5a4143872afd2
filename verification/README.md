# mooltitwap

A multitap delay ("delay garden") built as a CLAP/VST3 plugin.

- `src/` is the verified library:
  - `delay.rs`: the power-of-two ring buffer that every tap reads from,
    modelled as the sequence of its last `capacity` samples; writes are a
    shift register, and reads return the samples around an integer delay.
    Laws: writes compose, and a sample comes back exactly `d` writes later.
  - `taps.rs`: how many taps are read, which of them sound and at what pitch,
    which tap feeds back (always one that is read), and the editor's integer
    steps for pitch and tap count.
  - `params.rs`: the channel mode, the tempo-sync division table (as exact
    fractions of a beat, with the proof of how it is ordered) and the labels
    that depend on the channel mode.
- `app/` holds the plugin around it: the parameter set, the floating-point
  DSP (interpolation, slewing, pitch crossfades, filter, limiter, topology
  curves) and the egui editor.
- `tests/` runs the library on concrete values.

# lightshow

A light show for a Raspberry Pi: songs are analysed for their transients and
tempo, and while a song plays two DMX moving heads move on every transient and
change colour with the spectrum.

- `src/` is the verified library (Verus): the analysis file layout
  (`analysis_file`, little-endian words through `byteorder`), the transient
  scanner's skip schedule (`transients`), the light cue schedule followed during
  playback (`playback`), the spectrum band layout (`spectrum`), the tempo frames
  (`frames`) and the DMX frame (`dmx`).
- `app/` is the program around it: reading wave files (`hound`), audio output
  (`cpal`), the serial port and GPIO buttons (`rppal`), the spectrum (`rustfft`)
  and all single-precision arithmetic. `app/tempo.rs` is the older tempo-only
  prototype, run with the argument `tempo`.
- `tests/` runs the library on concrete values.

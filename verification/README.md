# lingot

A musical instrument tuner, built around a library verified with Verus.

The tuner captures audio, estimates the fundamental frequency of what it hears
(FFT, harmonic analysis, Newton-Raphson refinement on the full window), filters
out glitches with a frequency locker, and shows the nearest note and its
deviation in cents in a terminal gauge, a browser or a native window.

## Layout

- `src/` — the verified library: everything that decides on integers, bytes
  and text.
  - `scale` — scales and the arithmetic of absolute note indices (octave and
    position within the octave), generic over the number type of the pitches;
  - `note` — note labels such as `A4`;
  - `signal` — the frequency locker's state machine: how many consistent
    readings lock, how many failures unlock, when an octave jump re-locks;
  - `stream` — downsampling with a phase carried across blocks, and the
    sliding temporal window the analysis reads;
  - `web`, `page` — the browser page, request routing, the response head and
    JSON string quoting;
  - `tui` — the terminal gauge's bar and label row;
  - `text` — decimal formatting;
  - `audio`, `config`, `window` — the plain types the application configures.
- `app/` — the application: audio capture (cpal), the floating-point signal
  processing (filters, FFT, peak estimation), the threads of the tuner core,
  and the frontends (ratatui, a WebSocket server, eframe).
- `tests/` — tests of the library.

# swype-kbd

A swipe-typing on-screen keyboard for wlroots Wayland compositors, with its
core written in Verus.

- `src/` is the verified library `swype_kbd`:
  - `typing` — the typing state machine: layers, the shift latch, smart
    spacing, auto-capitalization, one-tap undo, the suggestion bar
    (completions, next-word predictions, swipe alternates) and the
    input-method status. It also reports each word the user accepts, for the
    host's frequency learning. Each operation returns the text-injection requests
    (input-method commits and deletions, virtual-keyboard key taps) for the
    host to perform, and is specified against a mathematical model
    (`TypingView`); `typing_laws` proves the behaviours users rely on.
  - `learning` — the next-word model (counts of which word followed which,
    ranked predictions, corrections) and the personal dictionary of
    tapped-out words, each with exact contracts.
  - `keyboard` — the four visual layers (caps, labels, actions, grid
    placement in half-key units).
  - `input` — the embedded US keymap and the char → evdev keycode table.
  - `render` — the BGRA software canvas: clear, clipped fills, pixel access.
  - `font` — the 5x7 bitmap key-cap font.
  - `synth` — the seeded xorshift generator used for synthetic swipes.
- `app/` is the program around it: Wayland surfaces and input, text
  injection, file I/O, anti-aliased drawing and the floating-point gesture
  decoder.
- `tests/` exercises the library on concrete values.

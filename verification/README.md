# Blair

The decision core of a Wayland compositor, verified with Verus, and the
program around it.

- `src/` is the library. It works on plain values: window and workspace
  bookkeeping, tiling, decorations, shortcuts, window rules, configuration,
  input routing, frame pacing, output selection, and the pixel work that is
  done in software. Every function states what it returns or changes, and the
  laws that span functions are public proof functions, most of them in
  `laws.rs` and next to the types they speak of.
- `app/` owns the Wayland objects, the renderer, files, processes and the
  session bus. It hands plain values to the library and performs the effects
  that come back.
- `tests/` exercises the compiled library.

Floating-point settings enter the library as their bit patterns, and pointer
positions as quarters of a pixel, which keep every comparison with whole and
half pixels.

The configuration is read in layers: the built-in defaults, then the system's
documents, then the user's. `documents.rs` reads each text and merges it onto
what lies below, and `config::accept_layers` checks what there is after each
layer, so that a faulty layer is refused by name and the configuration in force
stays as it was.

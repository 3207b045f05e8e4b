# forja_wasm_gui

The window of a Forja program: a tree-walking evaluator for its functions, the
layout found in its `main`, the drawing of that layout and the clicks on it.

The library is verified with Verus and does no input or output and no
floating-point arithmetic. It carries decimals as the bits of their doubles.
Where a program needs decimal arithmetic or the text of a decimal, the run stops
with a request; the host answers and runs it again with the answers given so
far. A drawing is a list of orders to a canvas whose coordinates are formulas
that the host computes.

- `src/` is the library. `semantica.rs` says what a program means,
  `evaluador.rs` runs it; `layout.rs`, `lienzo.rs`, `dibujo.rs` and `ventana.rs`
  are the window; `constancia.rs`, `avance.rs`, `leyes.rs` and `leyes_gui.rs`
  state and prove what holds of the whole.
- `app/` is the web page around it: the compiler, the canvas and the host's
  floating point.
- `tests/` run the library with a small host of their own.

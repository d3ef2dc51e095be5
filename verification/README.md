# sixtyfps

The expression tree of the `.60` language compiler and the logic that works on it,
with the decision logic of the run-time's event loop and glyph cache, written in Verus
and verified.

- `src/` is the verified library:
  - `typeregister`, `object_tree`, `diagnostics`: the types, the element tree and the
    errors that the compiler reports;
  - `expression_tree`, `expression_type`, `conversion`, `traversal`: expressions, their
    types, implicit conversions and rewriting of sub-expressions;
  - `focus_item`: the pass that turns `initial_focus` bindings into setup code and
    removes the properties used in two-way bindings;
  - `eventloop`: what the run-time does with each event of the windowing system and how
    it waits for the next one;
  - `path`: paths as the renderer draws them;
  - `text`: the glyph cache of a font.
- `app/` is the plain Rust around it: the winit loop, glyph rendering with font_kit,
  glow and image, the interpreter, and the floating-point scaling of units.
- `tests/` exercises the library on concrete values.

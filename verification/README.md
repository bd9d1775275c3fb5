# leptos-animated-for

A keyed list component whose children enter, move and leave with class-based
(FLIP) transitions.

- `src/` is the verified library: splitting class props into class names, the
  class list and inline style of an element as plain values, the enter, move
  and leave transitions with their pending cleanups, and the bookkeeping of
  the rendered children on each new rendering. `src/laws.rs` states what holds
  across the operations (for instance, that a finished enter or move
  transition leaves an element's classes as it found them).
- `app/` is the `AnimatedFor` component itself: it reads elements of the
  document into the library's model, writes the model's changes back, and
  runs the reactive and asynchronous plumbing and the position arithmetic on
  floating-point rectangles.
- `tests/` runs the library on concrete values.

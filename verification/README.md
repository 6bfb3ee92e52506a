# gc_arena

A heap with incremental, exact garbage collection, written and proved in Verus.

- `src/` is the library. Its functions carry contracts over a mathematical model of the arena
  (`State`), and the laws that hold of the arena as a whole are public proof functions:
  the collector keeps the arena sound (`soundness`), a collection keeps exactly what strong pointers
  lead to from the root (`reach`), the write barriers allow what they are meant to allow
  (`barriers`), and a root set keeps what was stashed in it (`root_laws`).
- `tests/` runs the library on concrete values.
- `app/` holds the token work of the derive macros; what they derive is decided in `src/derive`.

An arena holds values of one type that implements `Collect`; an enum makes room for several kinds.
Boxes stand at addresses of a range that is handed out once and never again, so that a pointer is
told apart from every other one for good.

# mikan

The verified core of a desktop application that follows an RSS feed of torrents
and hands them to BitComet, with the application around it.

- `src/` is the library, written in Verus. Every function has a contract that
  is proved; what holds across functions is stated and proved as public proof
  functions whose names begin with `law_`.
- `src/outside.rs` has all that is taken on trust of other crates and of std.
- `tests/` runs the library with those crates linked.
- `app/` is ordinary Rust: the window, the files, the processes and the network.
  It turns what it finds into plain values, asks the library what to do, and
  does it.

Percentages are floating-point numbers, which the library does not compute
with. It carries the bits of one where it has to compare it, and leaves working
it out to `app/`.

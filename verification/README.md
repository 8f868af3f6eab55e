# wb-switch-core

The core of an account switcher, written and proved in Verus.

- `src/` is the library. Every function states what it returns; functions whose names begin with
  `law_` state what holds of several of them together.
- `tests/` runs the library on values, with the outside crates linked.
- `app/` is ordinary Rust around the library: sockets, clocks, files, threads, and the services of
  the program that it is part of, which it takes as an implementation of `host::Host`.

Code that waits for the outside is split: a type in `src/` holds the state and says what it needs
next (a read, a request, a pause), `app/` does that and hands back what came of it.

What is taken from outside crates is behind small functions marked as trusted: JSON text and values
(`serde_json`), base64, SHA-1 and random bytes (`uuid`); and from the standard library the lossy
decoding of UTF-8, lower-casing and the `Debug` form of a string.

Sums and differences of integers are taken without wrapping around, in wider types than the values
have.

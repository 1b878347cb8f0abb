# cutile

The parts of a compiler for kernels of tiles that decide something, verified with Verus.

- `src/infer/` infers the types in the body of a function. The rules are in `walk`, the walk that
  follows them in `walker`, the end of inference in `finish`. What the rest of the compiler has to
  be asked is a book of questions and answers (`env`, `ask`): inference that meets a question
  without an answer stops and names it, and is started again once it is answered. `infer/steady/`
  shows that this changes nothing that was found out before.
- `src/forest.rs` and `src/unify.rs` hold what is known of types while they are inferred;
  `types`, `substitute`, `resolved`, `resolvable`, `receiver`, `render` and `exprs` read and write
  types and expressions.
- `src/codegen/` inlines calls, lays out constants and compiles a kernel, with the types that
  inference finds in each body. What the backend has to do is asked for one thing after the other,
  and the replies are read from a tape.
- `src/cuda/` is the host side of a device: contexts, streams and launches, as the calls that they
  make of the driver.
- `src/dsl/` is the language of kernels: what tiles, tensors, partitions and the operations on them
  compute.
- `src/specialization.rs` says what is known of the alignment of a kernel's arguments.
- `app/` reads syntax trees, makes the calls of the driver, and runs the loops that hand questions
  and requests to a `Backend`. The backend itself, the rest of the compiler, is not part of this
  project.
- `tests/` runs the library.

Every executable function states what it gives. Public proof functions are laws of the library.

# blobstream

The streaming blob cache of a registry that proxies others, with its logic verified by
[Verus](https://github.com/verus-lang/verus).

A blob is fetched in segments over several connections, written into one file out of order, and
served to any number of readers while it grows. A connection that stalls is redialled where it
stopped. A finished file is moved into the store only if it has the size that was announced and the
digest that was asked for.

- `src/` is the library. It decides what to do next and is told what came of it; it neither opens
  connections nor touches files. Its contracts and its laws (the public proof functions whose names
  begin with `law_`) are proved. What it believes of other crates stands in `src/chunk.rs` (`bytes`)
  and `src/digest.rs` (`sha2`, `hex`).
- `app/` is the async program around it: connections, files, the database.
- `tests/` runs the library on concrete values.

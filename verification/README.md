# substratum

A library of building blocks, verified with Verus:

- `compress`: which codec a file extension or path calls for, and the
  settings of each encoder and decoder (DEFLATE levels, buffer sizes, BGZF
  threading).
- `memory`: descriptions of allocations (address, layout, element size), the
  caches that keep such descriptions (by layout, and by owner and array shape
  with a shared spill-over cache), and the traits through which objects
  describe their buffers to a pool and ask it for cached ones. A description
  owns no memory: a vector described to a pool is dropped with its buffer,
  and a vector built from a description is newly allocated.
- `multilock`: acquisition of several locks at once in one global order of
  lock identifiers, which rules out lock-order deadlocks, and the proofs of
  access handed out while they are held.
- `vista`: views that lend a reference to a callback, composed by projection,
  computation and freezing, over values shared through `Arc` or guarded by a
  reader-writer lock, which a view takes without waiting: it fails with
  `LockBusy` while the lock is held elsewhere.

`src/` is the verified library. `app/` holds what cannot be verified here:
the compression streams (`flate2`, `noodles-bgzf`), the integration with
`lock_api`, views over raw pointers, and `bitcode`-serialisable copies of the
compression settings.

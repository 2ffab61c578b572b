# link_section

Verified core of a family of crates that gather items into linker sections:

- `platform` — section bounds, and (`platform::wasm`) the bookkeeping that
  WASM targets use instead of linker-gathered sections: items are registered
  one by one and flattened, in submission order, into contiguous storage;
  reference slots are resolved to the items' final places.
- `wasm` — WASM sections sized by a counting custom section: storage is set
  up once for the reported count and slots are handed out in order.
- `sections`, `item` — untyped and typed section handles over address ranges.
- `aix` — reading the loader's `ld_xinfo` chain and XCOFF headers to find a
  named section in the loaded images.
- `tokens`, `hash`, `scatter` — a model of compiler token trees, the location
  hash of a token stream, and the token rewriting of the `scatter`/`gather`
  attributes and of `ident_concat`.

`app/` holds what talks to the operating system and the compiler: the AIX
loader query, conversion of compiler token streams, and allocation of WASM
section storage.

The location hash is XXH3 (64-bit, seed 0, default secret). It is taken from
the `xxhash-rust` crate rather than written again here, and `hash` calls it
through a single trusted wrapper whose contract names its result.

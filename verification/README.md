# upsclr_server

An HTTP server that hands images to upscaling plugins (shared libraries with
a C interface) and answers with the upscaled result.

- `src/` is the verified library: request security checks, `Accept`
  negotiation, the `image/x-raw-bitmap` wire format, decoding and encoding
  through the `image` crate, the plugin and instance registries (with
  export/import across a reset), the decisions of the upscale, preload and
  instance-creation endpoints, and the multi-process variant's plugin-host
  bookkeeping and respawn policy. Every function carries a contract proved
  by Verus; the calls into outside crates sit behind small trusted wrappers
  whose contracts are documented where they stand.
- `tests/` runs the library on concrete values.
- `app/` is the executable around it: argument parsing, the axum routes,
  socket setup, loading plugin libraries and calling their C functions.

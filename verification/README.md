# octopus

The verified core of Octopus OS.

- `src/header.rs`: the 24-byte `.tssm` header, its little-endian encoding and
  decoding, and the header of the dummy model.
- `src/model.rs`: loading a model from the bytes of a file, the weight bytes,
  the decoding of 2-bit ternary weights into per-layer matrices, and the dummy
  model file.
- `src/event.rs`: the kernel event record, what each probe records, and its
  ring-buffer encoding.
- `src/intent.rs`: classification of user goals.
- `src/autonomy.rs`: the simulated autonomous events of the main loop.

`app/` holds the program around the library: argument handling, file
mapping, the eBPF loader, the floating-point inference over the decoded
weights, and the terminal output.

# nestri-server

The Windows streaming server of Nestri: it captures the screen with D3D11,
encodes it on the GPU through GStreamer and streams it over WebRTC, with
signalling carried over a libp2p relay. Viewers open
`https://xtreme-gaming.pages.dev/play?room=<room>`.

Layout:

- `src/` — the library, verified with Verus: the varint length framing of the
  relay stream (with a proof that reading a frame gives back what was
  written), the signalling and input message logic, GPU and encoder
  selection, command-line option parsing, latency accounting, the launcher's
  env file (with a proof that the file it writes reads back to the same room
  and relay) and the pipeline description.
- `tests/` — tests of the library on concrete values.
- `app/` — the program around it: command-line parsing, the protobuf wire
  format, the libp2p peer, the stream loops, the GStreamer signaller, DXGI GPU
  enumeration and the launcher's file and process handling.

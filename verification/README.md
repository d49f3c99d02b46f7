# Framewire

Low-latency game streaming from a Windows host to browsers, peer to peer. A
small server relays the WebRTC offers and answers; media never passes through
it.

- `src/` is the library, verified with Verus:
  - the server: `config`, `version`, `roomcode`, `rooms`, `ratelimit`,
    `messages`, `json`, `signaling`, `site`;
  - the host's network side: `urls`, `media`, `upnp`, `transport`, `bitrate`,
    `frame_sender`;
  - the host's picture side: `capture`, `capture_session`, `encode`, `pacing`,
    `pipeline`, `nv12`, `thumbnail`;
  - the host's settings and display: `args`, `status`, `gui`;
  - what all of these share: `text`, `decimal`, `table`, `rounding`.
- `app/` is the program around it: sockets, peer connections, Direct3D, the
  hardware encoder and the settings window. `framewire backend` runs the
  server; anything else runs the host. Capturing, encoding and the settings
  window need Windows. The pages and the shader are read from `assets/`,
  `site/` and `shaders/` below the working directory.
- `tests/` runs the library on concrete values.

What the library does with times, it does on a monotonic clock in nanoseconds.
Where a result is rounded as floating-point arithmetic rounds it (`bitrate`,
`pacing`, `thumbnail`), it is computed exactly, on whole numbers.

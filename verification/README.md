# nostreye

A camera that signs its pictures and publishes them to Nostr. The library in
`src/` is verified with Verus; `app/` is the program around it (libcamera
capture, the Blossom HTTP upload, relay WebSockets and the interactive
prompt).

- `pixel`, `raster`, `camera`, `rgb_image`: BT.601 YUV to RGB, decoding of
  NV12/NV21, I420/YU12/YV12, YUYV and RGB888 buffers (in separate planes or
  one buffer), JPEG pass-through, and the choice of decoder by fourcc.
- `text`, `json`: decimal and JSON string text, the NIP-01 commitment and
  the event object in compact JSON; and what `serde_json` reads from and
  writes for a JSON text (event JSON, relay and Blossom replies).
- `crypto`: SHA-256, hex, base64 and Schnorr verification from `sha2`, `hex`,
  `base64`, `nostr` and `secp256k1`.
- `signer`: the hardware-linked identity from `device-signer`, event signing
  (kinds 0, 1, 1063, 24242) and event verification.
- `publisher`, `session`: the upload request, the NIP-94 and kind-1 events,
  relay messages and replies, and the prompt's commands.
- `laws`: properties that span these functions.

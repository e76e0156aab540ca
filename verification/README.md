# cosmicdrop

An AirDrop / AWDL implementation for Linux whose protocol core is verified
with Verus.

## Layout

- `src/` — the verified library.
  - `awdl/` — Apple Wireless Direct Link: byte-level wire helpers, channel
    and frequency arithmetic, SipHash and the CRC-32 frame check,
    availability-window timing, master election, the peer table, frame
    parsing (`rx`) and construction (`tx`), the daemon's per-tick decisions,
    and the netlink messages that configure the interface. `exchange` holds
    the laws that relate what one node sends to what another receives.
  - `http.rs`, `server.rs`, `client.rs` — the small HTTP dialect AirDrop
    speaks: reading request heads, routing, response and request heads.
  - `property_list.rs` — property-list values, their model, lookups, and
    the binary encoding done by the `plist` crate.
  - `conversation.rs` — what the receive server reads of the client's
    requests, and what the client reads of the server's responses.
  - `identity.rs` — the TLS certificates and key read from PEM text, and a
    new self-signed certificate.
  - `archive.rs` — the archive an upload carries: compressed for sending,
    decompressed on receipt, and the names of the files it holds.
  - `config.rs`, `panel.rs`, `util.rs`, `text.rs` — configuration defaults,
    the applet's state machine, file type detection, and number formatting.
- `tests/` — tests run against the compiled library.
- `app/` — the program around the library: sockets, TLS, mDNS, the tun
  device, files, and the COSMIC panel applet.

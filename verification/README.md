# voiddrop

Peer-to-peer file drop over the terminal (`vb send`, `vb receive`) with a
small relay (`voiddrop-server`) that pairs senders and receivers and can
hold a file in memory for phone downloads.

- `src/` is the verified library (Verus):
  - `relay/`: the relay's session table (`session`, over the key-listing
    map in `store`), the signalling protocol (`protocol`), the HTTP side
    (`http`), and the laws that hold across them (`laws`).
  - `client/`: command planning (`commands`), transfer rules
    (`pipeline`), the AES-256-GCM framing of the encrypted modes with its
    SHA-256 key (`cipher`), messages (`protocol`), the phone QR server (`qr_server`),
    sizes, durations and random codes (`helpers`), display (`ui`),
    clipboard choices (`clipboard`), the command line (`cli`), and laws.
  - `text.rs` and `web.rs`: string operations and HTTP response texts with
    their specifications.
- `app/` is the program around it: sockets, files, clipboard, terminal
  output, JSON, and the command-line parser. Run under the name
  `voiddrop-server`, it serves as the relay.
- `tests/` exercises the library on concrete values.

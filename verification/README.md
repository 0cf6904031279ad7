# p2p-signaling

A peer-to-peer client: two peers meet in a room of a signaling server, open a direct link, and use
it for chat, file transfer and remote desktop.

- `src/` is the logic, verified with Verus. Rooms and settings (`rooms`, `settings`), how two peers
  find each other (`signaling`, `candidates`, `dispatch`, `direct`), the direct link (`p2p_proto`,
  `link`), files (`ranges`, `transfer`, `transfer_session`), the shared desktop (`remote_desktop`,
  `desktop_session`, `tiles`, `frames`, `screen`, `capture`, `fit`), its input (`scan_codes`,
  `injection`, `mac_injection`) and the window's state (`chat` and the modules named after it). Each
  state machine has a view, spec functions that say what each event leads to, and executable
  functions proved to do just that.
- `tests/` runs the library with the outside crates linked.
- `app/` is the program around it: the window, the sockets, the files and the platform's screen.

What the library takes from outside crates stands behind functions whose contracts are believed:
`digest` (sha2), `encoding` (base64), `random` (uuid), `png` and `screen` (image), `p2p_proto`
(serde_json), `direct` (rcgen), and `paths`, `screen` and `text` (std).

# beams

Share your localhost with the world: `beams 3000` opens a public HTTPS link
(Cloudflare quick tunnel), `--subdomain` picks the name over localtunnel, and
`--tcp` exposes a raw TCP port over bore.

## Layout

- `src/` — the library, written in Verus and verified: parsing the user's
  target (`cli`), reading the tunnel tools' logs (`parser`), naming, fetching
  and unpacking the tools (`binary`, `archive`), the backends' command lines
  and the localtunnel handshake (`tunnel`), readiness and liveness decisions
  (`ready`, `streak`), the session's restart policy and port choice
  (`session`, `local`), and the QR code (`output`). Outside crates
  (`serde_json`, `qrcode`, `directories`, `zip`, `tar`, `flate2`) are reached
  through small trusted wrappers whose contracts say what they return.
- `app/` — the command-line program: argument parsing, networking, child
  processes, the terminal, and the async loop that drives the library's
  decisions.
- `tests/` — unit tests of the library.

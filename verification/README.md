# warden_core

The core of Warden, an autonomous VPN client: it discovers server
configurations, reads share links of several protocols, ranks candidates,
opens sessions, rotates them, watches for geo-blocking and tunes itself to
the host. The library is written in Verus; each function carries a contract
that the verifier proves.

## Layout

- `src/` — the verified library.
  - `api`, `urls`, `discovery`: server configurations, subscription and feed
    parsing, deduplication.
  - `protocol_helpers`, `vless`, `trojan`, `vmess`, `tunnel`: share links of
    each protocol and the first bytes each tunnel sends; the WireGuard
    handshake steps and the steps of the loopback proof.
  - `protocol`, `warden`: candidate ranking, sessions, connecting, rotation
    and retry back-off.
  - `decision`, `pool`, `fact_index`, `ternary_vsa`, `vector_table`:
    rankings, the measurement cache, the fact index, ternary vectors and
    the vectors and bundles of a knowledge base.
  - `mind`, `traffic_watch`, `live_probe`: geo-block classification and the
    watchdog, probe requests and the search for a live server.
  - `calib`, `tier_probe`, `speed_test`: host tiers and self-tuning.
  - `config`, `opsec`, `updater`, `ui`, `error`, `text`, `tun`.
  - `bridge`: the calls into other crates and into the standard library,
    each with the contract it is trusted to meet.
- `tests/` — tests of the library.
- `app/` — the `warden` program around the library: the command line and
  terminal interface, network and file I/O, and the parts computed in
  floating point (similarity search, quality scores, throughput).

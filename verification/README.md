# wavry_core

The verified core of the Wavry streaming platform, written in Verus: every
function in `src/` carries a contract that Verus proves.

## Layout

- `src/` — the library.
  - Gateway: input validation, tokens and origins (`security`), sign-in,
    registration, TOTP and logout flows (`auth`, `auth_flow`, `account_flow`),
    TOTP secrets and password hashes (`totp`), admin checks (`admin`),
    WebRTC signalling over HTTP (`web`), WebSocket signalling (`signal`),
    WebTransport signalling (`webtransport`), audit records (`audit`), and
    the built-in UDP relay (`gateway_relay`).
  - Master: relay registry and lease quota (`registry`), relay
    pre-selection (`selection`), the signalling socket (`master_signal`).
  - Relay: sessions and their pool (`relay_session`), lease claims
    (`lease`), per-address rate limits and bans (`relay_guard`), the
    heartbeat to the master (`heartbeat`).
  - Media: buffer and encoder pools, packet reordering, H.264 AVCC parsing
    and the decoder's parameter-set handling (`nal`), capture backends and
    encoders for Linux portals (`portal`, `pulse`, `diagnostics`), the
    GStreamer capture pipelines for audio and screen (`capture_pipeline`),
    audio framing (`pcm`), recording (`recording`), input remapping (`input_map`), and the shared
    media types (`media`).
  - Helpers: text (`text`), string maps (`text_map`), fixed-window rate
    limiting (`rate_limit`).
- `tests/` — tests run against the compiled library.
- `app/` — what stays outside the library: JSON shapes of requests and
  replies, settings from the environment, clocks and socket addresses,
  floating-point relay scoring and gamepad shaping, and host probing.

Times are monotonic instants in nanoseconds unless a name says otherwise;
IP addresses are 128-bit numbers, IPv4 in the low 32 bits.

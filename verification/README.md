# airdrop

The core of a local-network clipboard sharing tool, written in Verus. The
functions under `src/` carry `requires`/`ensures` contracts that Verus
proves, and the laws the tool relies on stand there as proof functions. The
exceptions are the small wrappers around the hashing, signature, AEAD,
random-number, text-encoding, URL and image crates (marked
`#[verifier::external_body]`): their contracts restate what those crates
document and are believed without proof.

Each device keeps one clipboard slot per trusted peer. Content travels only
through sync groups whose owner signs a manifest of members, directions and
allowed content types; pairing is confirmed by a six-digit code on both
sides, and nothing received reaches the local clipboard until the user
imports it.

## Layout

- `src/` — the verified library.
  - `codec`, `formats`, `crypto`, `text`, `order`, `path` — byte encodings,
    the trusted wrappers of the hashing, signature, AEAD and text-encoding
    crates (each names its result or states what its documentation
    promises), UTF-8 text helpers and the byte order of strings.
  - `identity`, `pairing`, `confirmation`, `session` — device ids from
    public keys, the pairing context and short code, the pairing state
    machine, and the check of a trusted peer's hello.
  - `group`, `membership`, `delivery` — signed group manifests and
    tombstones with their canonical encoding, the owner's operations on
    them, and which content reaches which device through which groups.
  - `content`, `views`, `receive`, `imports`, `capture`, `monitor`,
    `outbox` — classifying and hashing clipboard content, the slots the user
    sees, accepting remote content, importing it, publishing local content,
    the clipboard watcher's decisions and the offers kept for late peers.
  - `files`, `blobs`, `frames`, `cache` — file bundles (portable names,
    relative paths, headers), blob streams and resumption, length-prefixed
    frames, and the encrypted clipboard cache records.
  - `telemetry`, `peers`, `runtime`, `ui`, `discovery`, `platform` —
    transfer history and rates, connection counters, the transport's run
    state and dialing rules, the snapshot shown to the user, service
    discovery records and platform names.
- `tests/` — ordinary Rust tests of the library.
- `app/` — ordinary Rust around the library: the identity and cache files on
  disk, staging copied files, clocks, settings with their display values,
  telemetry records with rate smoothing, and framed messages on streams.

# helios_api

The decision logic of the HeliOS HTTP API, written in Verus: the rules the
stream, recording, storage and startup handlers apply to what they are
given (requests, manifests, engine replies, file contents) are functions
with contracts, proved by the verifier. The handlers themselves, which talk
to the camera engine and the peripherals service, are not part of it.

## Layout

- `src/` — the verified library.
  - `text.rs`: trimming, ASCII case folding, splitting and decimal
    rendering on `Seq<char>` models.
  - `storage/`: data-root paths, the mount table, the OS self-check report
    and the storage health snapshot built from them.
  - `startup.rs`: which stored state is pruned at start-up and how the
    startup preset is applied and seeded.
  - `recording/`: recording options, media file names, shadow-buffer
    captures, frame timestamps, the IMU side file, replay bundles and
    their samplers, and the answers that refuse a request early.
  - `streams/`: the pipeline part of stream manifests (normalization,
    validation and the laws every normalized configuration satisfies),
    pipeline edits, codecs, controls, previews, benchmarks, autostart and
    the replies to engine answers.
- `tests/` — tests run against the compiled library.
- `app/` — what the verifier does not see: file-system reads, async
  plumbing, serde copies of library types and the floating-point
  arithmetic of the handlers.

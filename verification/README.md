# djicap

Converts DJI flight records to Foxglove `.mcap` files. The library in `src/`
is verified with Verus; `app/` is the command-line program around it.

- `protobuf`: the varint and field encoding of `foxglove.CompressedVideo` /
  `foxglove.CompressedImage` messages, with a decoder specification and the
  proof that an encoded message decodes back to its fields.
- `channels`: MCAP channel bookkeeping (channel per topic and schema,
  consecutive sequence numbers per channel).
- `media`: which media files fall into a flight's time window, their stable
  ordering by start time, and presentation-time arithmetic.
- `names`: file extensions, DJI file-name timestamps and container
  `creation_time` tags.
- `transformers`, `schemas`, `pipeline`: the telemetry messages and the
  frame-level decisions of the conversion.

`app/` reads the log, fetches decryption keys, runs FFmpeg and writes the
MCAP file; the floating-point geometry (quaternions, WGS-84 to ENU) lives
there too.

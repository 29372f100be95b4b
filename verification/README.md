# rust-bridge

A JSON → CCSDS telecommand bridge for a cFS lab, with cFS telemetry decoding, CFDP Class 1
PDU encoding and cFE table-file building, written in Verus.

- `src/` — the verified library:
  - `packet`, `crc`, `command`: CCSDS primary header framing with a CRC-16/CCITT-FALSE trailer,
    the named command dictionary, hex payload decoding, the JSON command shapes.
  - `tlm`: CCSDS primary header and cFE telemetry decoding (ES HK, TO_LAB HK, EVS long event,
    CF EOT) and datagram classification.
  - `cfdp`: CFDP common header and Metadata / File Data / EOF PDUs, the CF modular checksum,
    and the Class 1 send plan.
  - `ai_app`: the `AI_APP_WeightsTable_t` image with its skip-field CRC-32, the cFE table file
    wrapper, the default lab dimensions and the deterministic golden generator stream.
  - `persistence`: telemetry journal file names.
  - `brain_upload`: the master brain upload as a state machine (decisions only).
  - `text`: string helpers used by the above.
- `app/` — the program around it: UDP senders, the HTTP server, the telemetry listener, the
  journal writer, JSON (serde) shapes, the floating-point golden weights, and the driver loop
  of the brain upload. Run with no argument to send one heartbeat, with `server` for the HTTP
  server, or with `brain-upload` for one upload run.
- `tests/` — tests of the library.

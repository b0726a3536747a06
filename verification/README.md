# Transpo

An ephemeral, end-to-end encrypted file sharing service.

- `src/` is the verified core: URL-safe base64, the multipart form parser
  and the state machine that reads upload forms, the upload and download
  decisions, the accounting of quotas and storage, the segment framing of
  encrypted uploads, the Zip archive records and the CRC-32 of each entry
  (through the `crc` crate), the configuration, the
  translations, and the command line of the upload client. Each function
  carries its contract and is proved by Verus; the calls into outside
  crates stand behind a few trusted wrappers whose contracts say what they
  claim.
- `app/` is the server (HTTP routes, WebSockets, files, database) and the
  upload client (started under a name ending in `transpo-client`), built
  around the library.
- `tests/` runs the library on concrete inputs.

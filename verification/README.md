# tufa

A terminal TOTP authenticator: accounts kept in password-encrypted vault files,
`otpauth://totp/` URIs, Google Authenticator export URIs, QR codes, a command
line and interactive screens.

The library (`src/`) is written in Verus and verified:

- `text`, `url`, `codec`: character sequences, percent-encoding, Base32/Base64.
- `totp`, `uri`, `totp_uri`: accounts, their canonical secrets, their codes,
  their `otpauth://` form (with the round-trip law `lemma_uri_roundtrip`) and QR
  drawings.
- `migration`: the `otpauth-migration://` export format, including a decoder for
  its protocol-buffer payload.
- `vault`: the vault file layout, Argon2id key derivation, AES-256-GCM
  encryption, and what a vault stores of each account.
- `listing`: which files are vaults and the names they are listed under.
- `cli`, `run`: what each command decides, and a command's run as a state
  machine that asks for the prompts, file access, clock reads and printing it
  needs and takes their outcome back.
- `screen`, `app`, `notification`, `secret`, `ui`: the interactive screens as a
  state machine that asks for outside work (listing, reading and saving
  vaults, the clipboard) and takes its outcome back; the Unix time (for
  codes) and a monotonic millisecond clock (for how long a notification is
  shown) are handed in as plain readings.

`app/` is the program around it: argument parsing, prompts, files, the
clipboard and drawing the screens in the terminal.

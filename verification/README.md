# aistatus

A terminal panel for the quotas of several Codex and OpenAI accounts: the list of accounts, the
share of the five-hour and the weekly quota that is used, the membership, and whether the last
refresh succeeded, needs a login or met another protocol version.

- `src/` is the library: the profiles and their configuration, the command line, the protocol
  adapter, the secret stores, the doctor, the refresh and the texts of the panel. Verus
  proves the contract of every function there; calls into outside crates and into the system stand
  behind declared contracts that it takes as given.
- `app/` is the program around it: files, the keychain, the terminal, and the TOML and JSON forms
  of the library's types.
- `tests/` runs the library.

Subscription quotas come from the Codex protocol, schema `v2`. Another schema version is reported as
an incompatibility and never read as if it were supported. OpenAI API usage is a usage family of
its own and is never shown as a subscription quota.

The plain configuration holds profile metadata and references to secrets. Secrets stand in the
platform's keychain, in files encrypted with ChaCha20-Poly1305, or in secret material beside the
configuration.

Paths are bytes with `/` between their components, as on Linux and macOS; they need not be text. A
reference to a secret file names its paths by the text they are shown by.

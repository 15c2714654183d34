# peridio_cli

The Peridio command line client, with its logic written in Verus and proved
against contracts.

## Layout

- `src/` — the verified library.
  - `text`, `strmap`, `styled`: text helpers, a map keyed by names, and
    messages made of styled segments.
  - `prn`, `value_parser`: Peridio resource names — parsing, building, and the
    check applied to resource-name arguments.
  - `paths`: path normalisation and the expansion of `~` and relative paths.
  - `config`, `options`, `profiles`, `commands`: the configuration file (both
    formats and the migration between them), profiles and credentials, the
    global options and the checks made before a command runs.
  - `binary`, `upload`, `binary_create`, `signing`, `digest`: the binary
    lifecycle (processing plans), cutting content into upload parts, reusing or
    resetting existing binaries, signatures, digests and keys.
  - `bundle_format`, `bundle_push`, `bundle_pull`, `bundle_create`, `json`:
    the bundle archive document, pushing and pulling archives, and creating
    bundles from the command line.
  - `x509`, `upgrade`: choosing a certificate's signer and validity, and
    choosing the release asset to upgrade to.
- `tests/` — tests on concrete values.
- `app/` — the program: argument parsing, files, terminal output and network
  access for the local commands (configuration, profiles, certificates,
  upgrades).

Calls into outside crates (`uuid`, `sha2`, `ed25519-dalek`, `base64`,
`serde_json`, `time`) are made from `src/` through small trusted wrappers whose
contracts name their results.

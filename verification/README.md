# facepass

Face authentication for Linux: a PAM module, a daemon that runs the camera
and the recognition models, and the `facepass` tool that manages enrolled
faces.

## Layout

- `src/` — the library, verified with Verus. It holds the rules of the
  system, each with a contract:
  - `selector`, `storage`, `models` — user, group and face selectors, the
    face store's metadata rules (groups, default group, labels, removals);
  - `config`, `preset` — configuration defaults, validation, and preset
    resolution (a preset's TOML table laid over the base configuration);
  - `security` — the SSH and closed-lid checks, the invoking user, camera
    device checks;
  - `control`, `auth_flow`, `server`, `runtime`, `pam` — the daemon's session
    registry, the per-frame decision loop of an authentication, request
    handling, configuration reloads, and the PAM result mapping;
  - `commands` — what each command of the tool decides and prints;
  - `matching`, `vision`, `ident`, `text`, `error` — comparability of
    embeddings, crop and model choices, identifiers, text helpers, errors.
- `tests/` — tests of the library.
- `app/` — the programs around the library: file and socket I/O, the
  camera and the OpenCV networks (floating-point work), the command-line
  parser, the tokio server, and the PAM hooks.

## Checking

Verus verifies `src/`; the tests run with the real outside crates.

# bollard

The verified core of a Docker engine client and of its BuildKit session
support, written in Verus.

- `src/` is the library. Every function in it is verified against its
  `requires` / `ensures` contract; the few calls into outside crates
  (`regex`, `glob`, `base64`, `url`, `rand`, `num`, `docker_credential`)
  go through small trusted wrappers whose contracts say what the crate's
  documentation promises.
  - `auth`, `context`, `env`: registry credentials, `config.json`
    sections and the choice of the Docker host.
  - `docker`, `http`, `container`, `exec`: API versions and their
    negotiation, host addresses, raw HTTP responses, daemon answers.
  - `grpc`: the BuildKit session — filter patterns, followpath
    resolution, the source scanner and the FileSync send session, the
    export transfer ledger, stream framing, exporter and frontend options,
    solve plans, and the driver lifecycle decisions.
- `tests/` runs the library on concrete values.
- `app/` is the unverified edge: the filesystem walks, the writing of
  received exports, configuration files, codecs and readers that hand plain
  values to the library.

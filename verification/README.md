# mcpfile

Declarative MCP server manager: services defined in a TOML configuration run
in Docker containers, with secrets from AWS SSM Parameter Store injected as
environment variables.

## Layout

- `src/` is the verified library (Verus): the configuration, container,
  lifecycle, secret and bridge logic of the commands:
  - `text.rs`: string building, comparison in `str` order, decimal and hex
    rendering, `u16` parsing, trimming, substring search, padding.
  - `strmap.rs`: a string-keyed map kept in key order (no key twice).
  - `config.rs`: the configuration types, service lookup, AWS profile and
    region fallback, the choice of the configuration file and the steps of
    loading it.
  - `docker.rs`: container names and parameters, the create request, and the
    reading of what the daemon reports about containers.
  - `lifecycle.rs`: `up` (SSE and stdio), `down` and `status` as state
    machines that name each Docker call and the outcome, with laws over
    whole runs.
  - `secrets.rs`: the `aws` command line and the reading of its outcome,
    cache freshness, and the resolution of a service's secrets as a state
    machine, with its laws.
  - `bridge.rs`: names, arguments and the bounded wait of `--bridge`, and
    the bridge process (create, start, attach, serve the socket, wait) as a
    state machine with its laws.
  - `pipe.rs`: the accept loop and output pump of the socket bridge; a new
    connection replaces the current client, and the end of the container's
    output ends serving. Laws over whole runs: only the latest accepted
    client is bridged, the container's input gets the clients' bytes in
    accept order, and a client that is no longer bridged sends nothing more.
- `app/` is the `mcpfile` program: argument handling, TOML parsing, the
  Docker daemon (bollard), the `aws` process, the cache files, the Unix
  socket I/O and printing. It performs what the library's steps ask for;
  the shell completions are clap's.
- `tests/` exercises the library, including the machines driven against
  in-memory stand-ins for Docker, SSM and the cache.

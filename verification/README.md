# Passenger resource management

Tier-based access to the resources of the spaceship X26: crew leads
administer passengers and resources, passengers use resources their tier
reaches, every attempt is recorded, every administrative change is audited
in a hash chain, and reports summarise usage.

## Layout

- `src/` — the library, verified with Verus.
  - `domain/` — tiers and their order, identifiers, records, events,
    errors, and small verified text utilities (lexicographic order,
    trimming, splitting).
  - `application/` — the services (crew leads, passengers, resources,
    access, reporting), the port traits they work through, and the
    server-wide audit journal that takes the events of every service in
    the order they were emitted.
  - `infrastructure/` — in-memory sinks, clocks, the audit hash chain
    (SHA-256 through `sha2`/`hex`), and the storage labels of the enums.
  - `interface/` — the HTTP boundary's values and decisions: wire shapes and
    their validation, error status mapping, `If-Match`/`ETag` handling,
    paging, bearer-token authentication (constant-time comparison through
    `subtle`), idempotent replays, Prometheus metrics text, configuration
    parsing, and the seeded demo world.
- `tests/` — tests of the library.
- `app/` — the `serve` binary: axum routes, serde/OpenAPI copies of the wire
  shapes, locking, and SQLite and PostgreSQL persistence.

## Running

`serve` reads its configuration from flags or `PRMS_*` environment
variables (`--help` lists them). Without `PRMS_DB_PATH` it starts from the
in-memory demo world; with it, state is kept in that SQLite file.

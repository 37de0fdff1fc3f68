# idemio

A request/response processing framework: requests are routed to chains of
handlers (request handlers, a termination handler, response handlers, or
lists of handlers and named chains), configured per path and method.

The library under `src/` is written in Verus; Verus proves every function
there against its contract (a constructor of a type that holds nothing has
no clause to state). It holds:

- `router`: the configuration builder, the handler chains loaded from a
  handler registry, the HTTP path matcher (a tree of path segments where `*`
  matches the rest of a path), and the decisions taken while a chain runs
  (`pipeline`).
- `dispatch`: table-driven routing: exact routes keyed by method and path
  hash, wildcard patterns grouped by first segment, named chains, the
  decisions taken while the executables of a route run, handler status
  flags and what they report, a tree router, and a numbered-handler executor.
- `handler`: handler identities, the handler registry, chain identities,
  and the check of what a configurable handler can be derived for.
- `collections`: insertion-ordered string maps and sets.
- `exchange::flow`: exchanges whose input and output are each a value or a
  stream not yet read, the steps that read a stream into a value with a
  collector, and the exchange builder; `router::exchange`: the exchange a
  routed request carries.
- `cache`, `config`, `handler_config`, `flow_config`, `catalog`, `logger`,
  `status`, `exchange`: configuration values and providers, a file cache,
  handler settings, log entries, exchange states and errors, stream
  collectors.
- `ext`: the calls into `fnv`, `dashmap`, `uuid`, `chrono` and std that
  Verus takes on trust, each with the contract it is trusted for.

`app/` holds what runs around the library: async handler traits, exchanges
with attachments and listeners, the reading of streams between the
library's steps, the loops that run handlers as the library decides, configuration read from files, and serialisable forms of the
configuration types. `tests/` exercises the library.

# taosx

A client for TDengine, over REST and over native WebSocket, whose decisions are proved with
[Verus](https://github.com/verus-lang/verus).

- `src/` is the verified core. It computes and decides everything: what a configuration may be, what
  SQL a batch of points becomes, what a response means, which request comes next, when a request is
  admitted, repeated or given up, and what a caller is told. It opens no connection and reads no
  clock, no file and no environment.
- `app/` is the client around it: HTTP, WebSocket, files, environment, time and tasks. It does what
  the core asks for, and hands back what came of it.
- `tests/` are the tests of the core.

## What is proved

Every function of `src/` states in `ensures` what it returns or changes, over mathematical values,
but for the one that asks an I/O error for its words, which are the operating system's:
texts are sequences of characters, times are nanoseconds, a configuration, a pool, a batcher or a
session is its fields. The proof functions whose names begin with `law_` state what holds of several
functions together, among them:

- a text in an SQL literal is read back as it was, and nothing after it is swallowed;
- different tags, and different super tables, have different tables, and the name of a table is an
  identifier;
- the chunks of a batch hold every row once, in order, within both limits, and no chunk could have
  taken the first row of the next;
- a time stamp that is written is read back, and one that does not fit its precision is refused;
- every point of a batch is accounted for as accepted or failed, and those that were not accepted
  stay pending until they are handed over or let go;
- the rows that a query asks for are those of the closed interval in nanoseconds, at any precision;
- there are never more requests under way than the configuration allows, and a closed pool and a
  closing batcher take nothing;
- only a reply with the integer code zero lets a WebSocket session go on, and what a failed session
  says does not depend on the credentials;
- a status that is no success decides alone, whatever the response holds;
- a permanent error is final, a run never makes more attempts than its policy allows, and back-offs
  grow to their cap;
- the text of a configuration is the same whatever its password, and no error of a configuration
  from the environment repeats the value of a variable.

## What is relied on

What the core has from other crates stands behind small functions whose contracts are taken as given,
each beside the type that it is about:

| Crate | Where | For |
| --- | --- | --- |
| `serde_json` | `json` | reading and writing JSON values |
| `toml` | `config::document` | reading documents and their values |
| `url` | `config::endpoint` | reading endpoints |
| `chrono` | `client::response` | reading dates |
| `std` | `text`, `duration`, `error`, `config`, `native`, `client::response` | strings, durations, paths, I/O errors, UTF-8 |

## Calling the core

Code that is not verified has to meet the `requires` of what it calls. There are few: a request has
to be under way before it is released (`TaosPool::release`), the sum of all counters has to fit into
64 bits (`TaosMetricsSnapshot::total_events`), and the bytes of a response and the steps of a write
come only from the functions that make them (`ResponseBody`, `WriteSession`).

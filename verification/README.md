# http-cache-semantics

Tells when HTTP responses can be reused from a cache, following RFC 7234 for user agents and shared
caches. What it decides is verified with Verus.

- `src/` is the library. `policy` holds `CachePolicy`; `model` says what a policy is and what it
  decides, and every function of `CachePolicy` is proved to return just that. `laws` holds what
  follows for all inputs. Below these stand `text`, `time`, `fields`, `directives`, `dates`,
  `heuristic`, `options`, `message`, `forwarding` and `updating`.
- `tests/` runs the library on concrete requests and responses.
- `app/` connects it to the types of `http`, `reqwest` and `serde`.

Header maps are those of the `http` crate, and dates are read and written by `chrono`. The few
functions that call these crates are marked as trusted, in `fields`, `message`, `dates` and `time`.

Functions that must not be called on every input (an age may be too long to hold, a header map may
be full) have a sibling whose name starts with `checked_`. It can be called on every input, and
returns `None` where there is no result.

# realmdex

The logic of RealmDex, a site that tracks the status, player counts and
uptime of RotMG private servers and Realm-Like games, written in Verus with
its behaviour stated in contracts and proved.

## Layout

- `src/` — the verified library.
  - `text.rs` — prefixes, trimming, splitting, ASCII case folding, decimal
    numbers (`str::parse` for `u8` and `i64`), UTF-8 byte length.
  - `types.rs` — categories, statuses, cards, admin rows and inputs.
  - `validation.rs` — the rules a server description must meet, including
    the refusal of private and local hosts.
  - `security.rs` — requests and responses, the API guard, the security
    headers, cookies and the admin gate.
  - `html.rs` — HTML escaping, the `</` escape for embedded JSON, the page shell.
  - `db.rs` — database rows, the assembly of server cards, statement values.
  - `routes.rs` — request routing, admin routing, scheduled jobs.
  - `poller.rs` — which servers a round polls (work-in-progress servers
    never), what a poll is recorded as, and the batched insert.
  - `jwt.rs` — the checks on a Cloudflare Access token (base64url through the
    `base64` crate), as a step function from state and event to the next
    state and the outside work to do; `app/` performs that work.
  - `card.rs` — the texts a server card shows.
  - `handler.rs` — where a request goes (API guard, route, admin gate, in
    that order), the answer to a checked token, and the admin handler's
    answer for each route and database outcome.
- `tests/` — tests of the library.
- `app/` — the Cloudflare Worker around it: entry points, D1 queries, network
  fetches, the Leptos templates, the browser controllers, and the
  floating-point colour ramp and sparkline path.

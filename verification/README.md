# fscs_web

The web layer of the Fachschaft Informatik's website server: who may see
which content folder, who holds which capability, how the OAuth session is
kept alive in cookies, which request bodies are accepted, and how mirrored
iCalendar feeds are filtered, sorted and cached. These decisions are
functions with Verus contracts, proved against them. What the outside crates
compute is stated as far as their sources show it; icalendar's parser and
the parts of a path are named in the contracts, not described.

## Layout

- `src/` is the verified library.
  - `instant.rs`: points in time and calendar days.
  - `text.rs`: the text rules the rest builds on: HTTP header values,
    whitespace words, decimal numbers, substring search.
  - `web/auth/`: users, capabilities and the groups that grant them, the
    authentication middleware's decisions, the cookie rewriting of a
    refresh, and the login callback.
  - `web/files.rs`: the content folder a user is served from, the paths that
    are refused, and the cache headers.
  - `web/calendar.rs`: reading a calendar into its coming events, sorted by
    start, and the four-hour cache of each mirrored calendar.
  - `web/api/` and the other modules under `web/`: the request bodies of the
    routes with their checks, the access rules of Anträge, and the answers.
- `tests/` runs the library on concrete values.
- `app/` is the actix-web server around the library: the authentication
  routes and middleware, the calendar API and the content folders, with the
  OAuth provider, the disk and the calendar downloads. Persons are reached
  through the `PersonStore` trait, which the caller provides.

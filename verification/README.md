# eikodan

A family of small HTMX web services (a todo list, a user page, a
database-backed counter with an order report, a greeting page) whose logic
is written in Verus and proved, with the servers around it in plain Rust.

## Layout

- `src/` — the verified library.
  - `service.rs`, `usecase.rs`, `model.rs`: the in-memory todo store (ids
    handed out in increasing order and never reused, listing in id order)
    and its use cases (titles trimmed and non-empty, missing todos
    reported).
  - `view_data.rs`: the `<!-- view-data ... -->` comment that carries the
    JSON of the view a page rendered (before the last `</body>` of a full
    page, at the head of a fragment, with a space put between adjacent dashes, so the JSON cannot end
    the comment), and the error page shown for a template that failed.
  - `templates.rs`: template lookup across several roots (first root that
    has the file wins).
  - `reply.rs`: the status and body the todo pages answer with.
  - `user.rs`, `report.rs`, `words.rs`: the user page view and greeting,
    the order report totals and row-count parameter, word counting.
  - `config.rs`: port, bind address, stylesheet mode and client count from
    the environment values.
  - `text.rs`: character-level string work (search, trim, decimal
    formatting and parsing) with its specifications.
- `tests/`: tests of the library.
- `app/`: the server binaries (`rust-htmx`, `fastweb`, `connectweb`,
  `lastshot`, chosen by the first argument): routing, templates
  (MiniJinja), the database (sqlx, tokio-postgres), live reload, and the
  serializable copies of the library's views.

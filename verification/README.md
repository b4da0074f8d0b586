# seichi_portal

The verified core of the Seichi Portal backend, written in Verus.

- `src/` is the library. Verus verifies every function in it, and each
  states its result in a contract but one:
  `update_search_engine_initialization_status`, whose answer depends on
  what a shared channel held before the call.
  `transition_search_engine_status` returns that status with the answer
  and states the change. The modules:
  - `non_empty_string`, `non_empty_vec`, `ordered_unique_vec`, `integer_id`:
    the validated value types of the portal.
  - `redmine/`: the rules of the Redmine importer: settings and their
    checks, the issue list and its pages, issue relations, the attachments
    of journals, the question values of an answer, the reading of an issue
    for import, the form targets, the uploads of attachments, retries and
    downloads of the HTTP clients, and the command line.
  - `web/`: the request policies of the HTTP layer: error answers, rate
    limits, Turnstile checks, sessions, Discord notices, the files of a
    comment-attachment request.
  - `schemas`: the request and response shapes that the rules read.
- `tests/` runs the library on concrete values.
- `app/` is the importer's command: it reads the settings file and the
  Redmine API with serde and reqwest, and takes every decision through the
  library. It also holds the `application/problem+json` form of the API's
  error answers.

Calls into outside crates (`uuid`, `chrono`, `reqwest`'s URL type, `tokio`'s
watch channel, `std`'s character classes) stand behind small trusted
wrappers, each with a doc comment that says what its contract claims.

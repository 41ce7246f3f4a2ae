# sc_server

The decisions behind a small intake server. People file requests in words; a
daemon on a developer's machine drafts a spec from each; a human reads the draft
and approves it, sends it back, or drops it. The server holds text and nothing
else.

`src/` is a Verus library. Every function in it carries a contract, and the
contracts are proved:

- `request`, `store`, `lifecycle`: a request, the steps it may take, and what
  holds of every sequence of them: one claim per repository, claims that expire,
  approvals bound to the text that was read, verdicts that can only withhold.
- `caller`, `config`, `i18n`, `settings`: who is calling, what the server serves,
  in which language, and how it is configured.
- `routes`: from a request to an answer. `dispatch` routes; `filing`, `review`,
  `daemon`, `admin`, `setup`, `signin` and `words` decide; `promises` states what
  holds of every request.
- `serve`: what is read off the wire and written to it, how long a poll is held,
  and in which order a server starts.
- `screen`, `screen_eval`: what a spam screener is asked, what its reply is taken
  for, and how it scores.
- `seal`: secrets on the volume.
- `json`, `text`, `routes/forms`: the bytes underneath.

Work that leaves the process is not done in the library. A flow that needs some
is a function from the facts so far to the next action, or to the answer: the
caller performs the action, records what came of it, and asks again.

`app/` is ordinary Rust around the library: the volume, the socket, the outside
services. `tests/` runs the library from outside.

What the proofs rest on besides Verus are the functions marked
`#[verifier::external_body]` and one `assume_specification`, each with a comment
that says what it claims: `chacha20poly1305`, `getrandom` and `serde_json`, the
clock, and a few functions of the standard library on texts.

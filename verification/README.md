# FeedMind

The rules of a feed reader, verified with Verus, and the programs around them.

- `src/` is the library. It decides: what a request may ask for, what is stored, in which order
  articles are listed and where a page ends, which articles a rule touches, how an OPML document
  is read into folders and feeds and written out again, what an export of a curated article
  shows, what a tier may use, and what is done about an account that does not pay. Every function
  states in its contract what it returns, and the laws that span functions stand beside them as
  public proof functions. What needs a database, the network or the payment service is asked for
  step by step: the library says what is to be done next and takes in what came of it.
- `tests/` runs the library on concrete values, with the crates that it calls.
- `app/` is the server, the worker and the command line. It talks to PostgreSQL, Redis, the
  payment service and the file system, and leaves the decisions to the library.

What fetches feeds, parses OPML, holds articles against rules and keeps the state of bounded
looks runs beside the programs. Each such companion is a command, named by a variable
(`FEEDMIND_FETCHER`, `FEEDMIND_OPML_PARSER`, `FEEDMIND_RULE_EVALUATOR`, `FEEDMIND_SYNC`), that
reads JSON or a document from its standard input and prints JSON.

## What is trusted

The library calls `argon2`, `base64`, `chrono`, `jsonwebtoken`, `regex`, `serde`, `serde_json`,
`sha2`, `uuid` and `validator`, and a few functions of the standard library. Each call stands in a small
function of its own whose comment says what is claimed of it. Everything else is proved.

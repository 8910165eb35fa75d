# hk-api

The HTTP and WebSocket API of a spectrum receiver, as a library whose rules are proved with Verus:
who is let in, which part of the server a path belongs to, what a body asks for, what is answered,
what is written to the audit log, and what the server may say about spectrum that it did not look
at. The API is receive only.

## Layout

- `src/` is the library. Every function has a contract over plain values: strings are sequences of
  characters, doubles are bit patterns, JSON is a small tree. Where a function leans on an outside
  crate, a private wrapper makes the call and its doc comment says what is taken on trust.
  - Requests: `request`, `response`, `http`, `routes`, `owner`, `auth`.
  - Bodies and answers: `json`, `body`, `params`, `dispatch`, `audit`.
  - Control: `control`, `command`, `run`, `gain`, `frontend`.
  - What was observed: `evidence`, `coverage`, `overlay`, `changes`, `events`.
  - What is kept: `annotations`, `collections`, `authored`, `captures`, `inspector`, `analyze`,
    `datasets`, `clusters`, `classification`, `decode`, `anomalies`, `attention`, `store`.
  - Streams: `bridge`. Values: `text`, `double`, `ordered`.
- `tests/` runs the library from outside.
- `app/` is the server around it: sockets, threads, files, clocks, and arithmetic on doubles. The
  stores and the front end are traits that a composition supplies. A service that changes something
  is driven through a handle of a request's own; the contracts say what is asked through it, and
  that nothing else is.

## Reading a contract

`ensures` speaks of spec functions that stand beside the function and say what its result is. Laws
that relate several functions are public proof functions with a sentence above each.

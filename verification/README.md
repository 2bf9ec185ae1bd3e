# rungbot

A verified library for laddered spot trading: it plans orders, keeps an idempotent order
journal, deploys fresh capital into resting buy zones, manages resting sells, watches the market
for decisions that need a person, and builds the files a read-only dashboard shows. What its
functions return is stated in contracts, and Verus proves the code meets them.

## Layout

* `src/double`, `src/big`, `src/decimal`: binary64 numbers with correctly rounded arithmetic, and
  their shortest decimal texts.
* `src/text`, `src/list`, `src/order`, `src/time`, `src/pyfmt`, `src/watch/json`: texts, lists,
  stable orderings, calendar times, number formats and ordered JSON.
* `src/guard`, `src/ids`, `src/keys`, `src/http`, `src/crypto`: the rails an order must pass,
  client ids, credentials, requests and replies, signatures.
* `src/journal`, `src/housekeeping`, `src/import`, `src/command`: the order journal and what is
  done with it.
* `src/gate`, `src/binance`, `src/venue`, `src/clients`: what is sent to the venues and what their
  replies mean.
* `src/deploy`: capital deployment, with its audit, churn and fill-odds reports.
* `src/watch`: the watchers.
* `src/dashboard`: the dashboard collector.
* `app/`: the command line around the library, with its files, its HTTP client and its clock.
* `tests/`: the library from outside.

## How the library talks to the world

Nothing in `src/` reads a file, a clock or a socket. A step that needs an answer is a pure
function of the answers so far: it returns what it asks for next, together with the journal and
the state as they stand at that moment, or it is finished. The caller performs what is asked, appends
the answer and calls again. So "journaled before it is sent" is a property of a function's
result, and it is proved as one.

Functions named `law_…` state what holds across functions. Functions marked
`#[verifier::external_body]` are the few calls into other crates and into the standard library
whose contracts are believed; each says in its comment what it claims.

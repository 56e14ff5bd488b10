# polymarket_arb_bot

A bot that watches fifteen-minute up-or-down markets and buys both sides when their asks add up to
no more than a limit. What it decides is a library whose behaviour is stated in contracts and proved by
[Verus](https://github.com/verus-lang/verus).

- `src/` is the library: settings (`config`), decimals (`decimal`), text (`text`), slots and slugs
  (`slot`), events and markets (`market`), the search for current markets (`resolve`), the pairs that
  are traded (`pairs`), the order book (`book`), order sizes (`sizing`), the state and the decision
  to trade (`state`), orders (`order`), the feed (`ws`) and locks by symbol (`executor`).
- `tests/` runs the library on concrete values.
- `app/` is the program around it: environment, clocks, JSON, the events service, the feed and the
  exchange.

Numbers are those of `rust_decimal`. Proofs count them in units of `10^-28` and rest on its sums,
differences, products and quotients being exact wherever the exact result is a decimal, and off by no
more than `10^-28` or ten parts in `2^96` otherwise, and on plain numerals being read as they stand.
Times are nanoseconds of a clock that the program reads and hands over.

# updown_bot

A trading bot for pairs of 15-minute up/down markets (ETH and BTC) on Polymarket. The decisions are a
library that Verus verifies; the program around it talks to the exchange.

## The strategy

When one token of the ETH market is nearly certain to win (its ask reaches the trigger price, 0.99 by
default) and leads the same token of the BTC market by at least a cent, the bot buys the ETH market's
other, cheap token for a fixed amount, or for `max_position_size` where that is set and less. A lead of
less than six cents also needs more than 90 seconds to be left. What was bought is sold in one to five
parts, at 0.03, 0.05, 0.07, 0.10 and 0.15, and all that is left is sold off when the time runs out. At
most one purchase is made in a period.

Two more strategies stand beside it: same-trend trading (`trend`) and buying opposite tokens that cost
less than a dollar together (`arbitrage`).

## Layout

- `src/` is the verified library. `decimal`, `float`, `rounding` and
  `arithmetic` hold the numbers; `period`, `discovery` and
  `monitor` follow the markets; `detector`, `trend` and `arbitrage` are the strategies; `trader` and `bot`
  keep the holdings; `api`, `orders`, `signing`, `redeem`, `json` and `errors` are the exchange's
  interface.
- `tests/` runs the library on concrete values, with the outside crates linked.
- `app/` is the program: command line and settings, HTTP, the exchange's own client, the clock and the
  tasks. It hands times, answers and prices to the library and carries out what the library decides.

## What is trusted

The library calls `rust_decimal`, `serde_json`, `base64`, `hmac`, `sha2`, `hex`, `alloy` and `reqwest`
(for the words of a status) behind small functions whose contracts are believed: they stand in `decimal`,
`json`, `signing`, `errors` and `text`, each with a comment that says what is claimed. Floating-point
numbers are held by their bit patterns, and their arithmetic is proved to give the nearest number.

## Running

The settings are read from `config.json`, which is written with defaults where it is missing. The
credentials can also come from `POLYMARKET_API_KEY`, `POLYMARKET_SECRET`, `POLYMARKET_PASSPHRASE` and
`POLYMARKET_PRIVATE_KEY`. Trades are simulated unless `--no-simulation` is given.

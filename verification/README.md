# am_rate_bot

A Telegram bot that collects the exchange rates of Armenian banks and
transfer services and answers with tables of rates and of the best
conversion paths between currencies.

## Layout

- `src/` — the library, written in Verus and verified:
  - `decimal.rs`: the decimal numbers of the rates, with the arithmetic,
    rounding, parsing and printing of `rust_decimal` behind wrappers;
  - `text.rs`: string helpers (trimming, case, splitting, replacing);
  - `html.rs`: the elements of a web page found with `select`, and the
    tables of cell texts built from them;
  - `source/`: the sources, their rates, the rate types, and one module per
    source that turns its answer into rates;
  - `sources/`: the older request and answer types of some sources, and the
    reader of VTB's page;
  - `graph.rs`: the graph of currencies and the search of all simple paths,
    with proofs that every path found is simple and follows the rates and
    that every such path is found;
  - `generate.rs`: the tables of a source and of conversions, sorted by rate;
  - `database.rs`: the collected rates and the cache of rendered tables;
  - `bot.rs`: the commands, the action each asks for, and the replies;
  - `collector.rs`, `config.rs`: which collected rates are kept, and the
    configuration.
- `app/` — the program around the library: configuration loading, HTTP
  requests to the sources, JSON and XML decoding, the Telegram dispatcher, the arbitrage search and
  the floating-point table of the older generator.
- `tests/` — tests of the library on concrete values.

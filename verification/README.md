# lfest

A leveraged futures exchange for simulated trading, written in Verus: the account, its
resting limit orders, its position and balances, margin and double-entry bookkeeping are
executable Rust whose behaviour is stated in `requires` / `ensures` contracts and proved.

Layout:

- `src/` is the verified library. Amounts are fixed point decimals with `D` fractional
  digits on `i64` mantissas (`currency`, `decimal`); the arithmetic itself is done by the
  `const-decimal` crate behind a few trusted wrappers in `decimal`.
  - `account/`: sorted bid and ask books (`sorted_orders`), the active limit orders,
    the position, the balances and the account that ties them together.
  - `accounting/`: T-accounts, transactions and the in-memory accounting whose debits
    always equal its credits.
  - `exchange`: the exchange around the account: its configuration (`config`,
    `contract_specification`), the checks of resting limit orders against market updates
    that fill them (`LimitOrderFills`, implemented by `trades::Trade`), the margin call
    that follows every fill (forced cancellation of the largest collateral contributors, one
    at a time and only while the collateral is not covered, stated by `margin_call_run`,
    liquidation below the maintenance margin, the resulting `Solvency`) and the events
    they produce. `update_state` takes a market update into the market state, force-closes
    a position whose liquidation price the market crossed and otherwise checks the resting
    orders; `submit_market_order` fills at the best bid or ask, `submit_limit_order` rests a
    non-marketable order (good till crossing) and `amend_limit_order` replaces one. The
    whole sequence of fills of an update is stated by `fill_run`. A fill or margin call
    whose values would leave the range of an `i64` stops with an error; such a fill is
    refused before it changes anything.
  - `exchange_decimal`: the exchange on `rust_decimal` numbers, whose market and limit
    executions are stated over the values of `rust_decimal`'s checked arithmetic; it takes
    market, limit, stop market and take profit market orders (`submit_order`), executes the
    resting ones a trade or candle triggers (`consume_trade`, `consume_candle`,
    `check_orders`), keeps them until `executed_orders` hands them out, and liquidates a
    position whose liquidation price the market crossed.
  - `margin`, `market_state`, `clearing_house`, `contracts`, `futures_type`,
    `fxmacrodata`, `trades`, `text`, `utils`: the smaller components.
  - Public proof functions state the laws that span several calls, such as
    `insert_then_remove_by_id_restores`, `lock_then_unlock_order_restores`,
    `apply_to_equity_keeps_net_worth`, `active_orders_count_changes` and
    `decoding_inverts_encoding`.
- `tests/` exercises the library on concrete values.
- `app/` holds what Verus does not check: serde and thiserror copies of library types,
  reading trades from CSV files, and the floating point statistics of the account trackers
  (`acc_tracker`, `full_track`).

# oraiswap_contracts

The logic of the OraiSwap CosmWasm contracts, written in Verus and proved
against its contracts.

- `src/` is the verified library: the decisions and amounts of the
  contracts, as functions from plain values to plain values. The chain
  queries of a swap (pool simulations, balances, taxes) and the message
  dispatch stay in `app/`, which hands their answers to the library.
  - `limit_order/`: orders, the matching engine, fees and rewards, tick and
    order listings, and the flows of submitting, matching and cancelling.
  - `ibc/`: the IBC swap client: vouchers, channel balances, payouts,
    acknowledgements, allow lists and their listings.
  - `ics20.rs`: the channel balances of the cw20 ICS20 bridge.
  - `converter.rs`, `distributor.rs`, `factory.rs`, `router.rs`,
    `milky.rs`: the token converter, the reward distributor, the pair
    factory, the mixed router and the taxed token.
  - `math.rs`: the fixed point arithmetic of `cosmwasm_std`, called through
    wrappers whose contracts state what it computes.
- `tests/` runs the library on concrete values.
- `app/` is the chain glue: storage, messages and entry points around the
  library. It does not cover every entry point: the mixed router's single
  swap and its simulation need the pool message types, which are not
  available here, and some order book queries are left out.

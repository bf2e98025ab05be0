# lightpool-bridge

An off-chain bridge for LightPool: it watches foreign chains (EVM chains and
other LightPool chains) and the local chain, collects the votes of validators,
confirms deposits on the local chain and pays withdraws out on the foreign ones.

## Layout

- `src/` is the library. It decides; it does no I/O. Every function of it is
  proved by Verus against its contract, and what the functions promise together
  is stated by the `law_` proof functions beside them.
- `app/` is the process around it: configuration files, HTTP and WebSocket
  connections, the event database, the `cast` program, the admin interface.
- `tests/` runs the library on concrete values.

## Reading order

- `text`, `bytes`, `codec`, `util`: texts, bytes, encodings and addresses. The
  functions of other crates stand behind small functions in `text` and `codec`,
  whose doc comments say what is taken on trust.
- `chain`, `messages`: the values that LightPool chains exchange.
- `config`, `route_config`: the configuration.
- `events`, `labels`: what is reported.
- `votes`, `vote_laws`: the votes on deposits and their submission.
- `route_state`, `withdraws`, `lp_submit`: what is remembered of a route, and
  the deposits and withdraws on it.
- `evm`, `evm_request`, `evm_finalize`, `committee_sync`: withdraws and changes
  of the committee on the EVM bridge, as machines that `app/` drives.
- `evm_ws`, `lp_ws`: the subscriptions.
- `router`, `handle`, `admin`: the bridge as a whole, its state and its
  administration.

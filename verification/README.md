# pallets

Verified models of four FRAME pallets and of an echo service's decisions,
written in Verus.

- `src/poe.rs`: proof of existence (claim, revoke and hand over byte strings).
- `src/kitties.rs`: kitties created with random DNA, bred and handed over.
- `src/kitty_market.rs`: kitties that cost a reserved deposit, are bred by
  their owner, handed over with the deposit, offered for sale and bought;
  each account's kitties are also listed under it (`src/kitty_list.rs` holds
  that list, `frame_support`'s `BoundedVec`).
- `src/template.rs`: a bounded buffer of prices and its saturating sum.
- `src/weights.rs`: the weight of creating a claim.
- `src/kitty.rs`: DNA drawing (Blake2-128 through `sp_io`) and mixing.
- `src/echo.rs`: what the echo service does next on a connection.

Each pallet's storage is a value of its `Pallet` type; dispatchable calls are
methods taking the call's origin and whatever the runtime supplies (the block
number, the random seed, the currency). The kitty market's `Currency` trait,
which the runtime implements, promises to record each request it receives
with its answer; over that record the contracts state what is asked of the
currency and that a refusal, and only a refusal, gives `NoEnoughBalance`. `app/` holds the echo server and
client, and the glue from a FRAME runtime's currency, randomness and logger.

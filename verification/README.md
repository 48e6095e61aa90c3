# moomoo_adaptor

A client for the moomoo OpenD wire protocol that streams trade-by-trade
(Ticker) data for a set of securities into QuestDB, with a heartbeat and a
reconnect policy with capped exponential backoff.

The library under `src/` is written in Verus and proved against its
contracts:

- `frame`: the 44-byte frame header (flag "FT", little-endian proto id,
  serial number and body length, SHA-1 of the body), building frames and
  reading headers back; `lemma_frame_roundtrip` shows that a built frame's
  header reads back as what it was built from.
- `mods`: the protocol messages as plain values; `client`,
  `live_subscriber::subscribe`, `market_state_querier`: the requests the
  client sends and the checks on the replies it gets.
- `engine`: serial numbers, the checks of the handshake and subscribe
  replies, the sorting of pushed frames, trade prints as rows, and the
  reconnect policy (`Backoff`) with its laws.
- `config`: settings from the environment, integer parsing as std does it,
  and the `market:code` list of securities.
- `metrics`, `signals`: the reconnect counter, flush figures, the sliding
  window of the moving-average signal and its side tracking.

`app/` is the program around it: protobuf encoding and decoding (prost
derives), sockets and timers (tokio), QuestDB writes, floating-point work
and `main`.

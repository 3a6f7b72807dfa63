# mpp-test-sdk

Client and server sides of the Machine Payments Protocol (MPP), an HTTP 402 payment flow on Solana,
written in Rust and verified with Verus.

## Layout

`src/` is the verified library. It neither waits nor talks to the network. What takes several steps
is a *flow*: it names the next action and takes the event that the action led to. Each flow has a
view, and `next` on the view says what follows each event.

| Module | What it holds |
|--------|---------------|
| `client` | networks, configuration, the client and how it is set up and funded |
| `airdrop` | asking a test network's faucet for 2 SOL, with three retries at the most |
| `fetch` | a request that pays when it is answered 402, and is made again with a receipt |
| `payment` | a SOL transfer from the client's wallet |
| `server` | asking for payments, and judging receipts |
| `rpc` | JSON-RPC calls, what their answers mean, waiting for a transaction |
| `transaction` | the bytes of a signed transfer |
| `header` | the `Payment-Request` and `Payment-Receipt` values, written and read |
| `shared` | the client that all callers of `mpp_fetch` share |
| `base58`, `keys`, `json`, `string_map`, `text`, `errors` | what these are built on |

`app/` is the async SDK around it: HTTP, timers, callbacks, `serde`, and the reading and comparing
of SOL amounts as floating point numbers.

`tests/` runs the library on concrete values.

## What is proved

- A request pays once at the most, and only when it was answered 402. It pays the amount and the
  recipient that a server's `Payment-Request` names (`one_payment_at_most`,
  `client_pays_what_the_server_asks`).
- The second request is the first one with a receipt, from which a server reads the signature and
  the amount (`the_same_request`, `server_reads_the_clients_receipt`).
- The caller is handed an answer of success and no other (`what_is_returned`).
- One timeout covers the whole of a request, the payment included: once its parts took more
  together, it ends with the error of the timeout (`one_timeout_for_all`).
- A request is authorized exactly when its receipt proves a payment (`authorized_means_paid`).
- The faucet's error comes after three retries and not before (`three_retries`).
- All requests of `mpp_fetch` are made by one client until it is discarded
  (`one_wallet_until_it_is_discarded`).
- What is written reads back: base58, for all bytes but one or more zeros alone; header values,
  where they hold no `;` and have no quote at either end; compact lengths below 2 to the 22; and all
  lamports (`decoding_undoes_encoding`, `payment_request_reads_back`, `payment_receipt_reads_back`,
  `compact_u16_reads_back`, `lamports_read_back`).

## What is trusted

Ed25519 (`ed25519-dalek`, with fresh keys from `rand`), base64 (`base64`), the arithmetic of large
numbers (`num-bigint`), the names of HTTP methods (`reqwest`), four operations of the standard
library on texts, and `Arc::clone`.

# zeta_executor

Receives trading signals, decides whether and how to act on them, and sends orders to brokers.
`src/` is the verified library that makes every decision; `app/` connects it to the network, the
disk and the clock.

## Layout

| Module | What it holds |
| --- | --- |
| `num` | IEEE `binary64` arithmetic and formatting on bit patterns, correctly rounded |
| `text` | String operations that the formats are built from |
| `outside` | Calls into `uuid`, `chrono` and `serde_json`, with what is taken for granted of them |
| `reply` | Single values out of JSON documents |
| `data` | Market events and the two feeds they come from |
| `orders` | Orders, positions, the append-only record, and what is told from it |
| `execution` | Choice of strikes, building of orders, capital, validation and planning |
| `agent` | Prompts, tool schema and call for the model that looks at ambiguous trades |
| `ipc` | Signals and how they are received |
| `signal` | The flow of a signal from arrival to order, as a state machine |
| `broker` | Requests to brokers and the meaning of their replies |
| `config` | Settings from environment variables |

What holds of the library as a whole is stated and proved in `orders/laws.rs`,
`execution/laws.rs`, `signal/laws.rs` and, as functions named `law_..`, beside the definitions
they speak of.

## Running

Settings are environment variables (see `config`). `DRY_RUN=true` needs none of them to start.
`ANTHROPIC_MODEL` names the model that is asked about ambiguous trades; without it those trades
are not made.

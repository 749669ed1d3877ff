# aircore

Files from one device to another nearby, over an encrypted channel: found over Bluetooth or on the
local network, agreed to by the person who receives, and checked when they arrive.

`src/` is the library, written in Verus: its functions state what they do, and are proved to do it.
What comes from other crates and from the standard library is taken on trust: a few small functions
marked `external_body` make those calls, and each says in its comment what it claims of them.

| module | what it holds |
| --- | --- |
| `crypto` | the handshake and the secure channel |
| `transfer` | safe names, the description of a file, its pieces and its digest |
| `request` | the request that opens a transfer, and its answer |
| `gatt` | the negotiation over Bluetooth |
| `ble_transport` | messages in small writes, and the answer to an offer |
| `transport` | what carries messages, and how they stand on a stream |
| `discovery`, `lan`, `hotspot` | finding each other, and the network to meet on |
| `flow`, `ble_flow` | the course of a transfer, step by step |
| `app`, `status`, `session` | the state behind the window, and what the user is told |
| `paths` | file names out of paths |
| `bytes`, `text`, `error` | numbers, texts and errors |
| `noise`, `digest` | what is taken on trust from `snow` and `sha2`; smaller trusted calls are in `text`, `paths`, `discovery` and `error` |

Functions named `law_...` state what holds of the library as a whole.

`app/` is the desktop program around it: window, sockets, files. The parts for Windows need the
`windows` crate, and the scanner for other systems needs `btleplug` and `--cfg btleplug`; neither
is among the dependencies in `Cargo.toml`.

# sealed_pqxdh

Post-quantum key agreement whose first message hides its sender, as a Verus
library: executable Rust whose behaviour is stated in contracts and proved.

| Module | Contents |
|---|---|
| `spqxdh` | Sealed PQXDH: send, receive, start a session |
| `pqxdh` | PQXDH, the sender's half |
| `xhmqv` | XHMQV over Ristretto255, and a sealed message on top of it |
| `sealed_ringxkem_xhmqv`, `sealed_ringxkem_x3dh` | Hybrid handshakes with ML-KEM-1024 and Falcon-512 |
| `ringxkem` | The framing that both hybrids share |
| `session` | The first state of a Double Ratchet session |
| `proto`, `sender_certificate`, `message_type`, `wire`, `text` | Wire formats |
| `curve`, `kem`, `pure_falcon`, `ristretto`, `crypto`, `rng` | Primitives, behind stated contracts |
| `identity_key`, `prekeys`, `error` | Keys, stores and errors |

A function that draws from a `RandomSource` has a companion that takes the
random values as arguments and has an exact contract, and says which draw goes
where. Falcon draws its own randomness: of `pure_falcon::keypair` and `sign` the
contracts state what holds of every outcome. The laws (a received message
carries what was sent, both parties derive one session key, an altered tag is
refused, encodings are read back) are public proof functions beside the code
they speak of.

`app/` holds what surrounds the library: asynchronous stores, generators of the
`rand` crate, XEdDSA signatures (`libsignal_core`) and the post-quantum ratchet
(`spqr`).

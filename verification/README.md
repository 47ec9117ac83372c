# tee-demo

Computes `x^3 + 5*y` in an Intel SGX enclave that stays loaded and serves many requests.

```text
client ──> host ──> loader ──> runtime (in the enclave)
```

* The **client** challenges the runtime with a nonce, verifies the quote that comes back, and
  encrypts its inputs (HPKE, P-256) to the public key that the quote vouches for.
* The **host** passes frames between clients and runtime and keeps the latest attestation. It reads
  no ciphertext.
* The **loader** runs the enclave. It serves the `loader.` requests (quotes, blobs) and passes all
  other frames on.
* The **runtime** keeps the current key pair and the one before it, seals them, attests them, and
  computes.

| x  | y  | x^3 + 5y |
|----|----|----------|
| 2  | 3  | 23       |
| 0  | 10 | 50       |
| -1 | 4  | 19       |
| 10 | 20 | 1100     |

## Layout

`src/` is the library, verified with Verus. It makes no system call but for randomness.

| module | what is in it |
|---|---|
| `text`, `bytes`, `hex`, `views` | decimal numbers, white space, little-endian numbers, hexadecimal |
| `outside` | the calls into other crates, each with what is relied on |
| `frame`, `wire` | messages, and how they stand on a stream |
| `aead` | HPKE encryption and its wire layout |
| `report_data`, `verify` | what a report binds, and whether an attestation is to be believed |
| `key_store`, `sealing` | key pairs, rotation, their binary form, sealed blobs |
| `compute`, `worker` | the computation, its inputs as text, the line protocol |
| `runtime` | the runtime as a state machine, and what holds over its runs |
| `loader`, `host`, `serve`, `launch`, `client` | what the other parts decide |
| `end_to_end` | what holds from client to runtime and back |

Functions named `law_...` are proofs about several functions at once: what is written is read back,
a ciphertext survives one rotation, a swapped key is found out, a client gets its result.

`app/` is the program around it: sockets, files, JSON, the clock, `EGETKEY` and `EREPORT`, and the
quoting service. It is one program, installed under the names `tee-demo-host`, `tee-demo-loader`,
`tee-demo-runtime` and `tee-demo-worker`: the host starts the loader under its own. `tests/` runs the library with the real crates.

# Sheave

The core of an RTMP server, verified with Verus: the handshake, the chunk
messages and their byte formats, the state machine of a connection, and the
FLV store of published audio and video.

## Layout

* `src/` — the verified library.
  * `byteorder`, `amf_number`, `text`: bytes, the bits of AMF0 numbers, names.
  * `messages`, `commands`, `info`, `metadata`: the chunk messages and what
    they carry, each with the model its contracts speak of.
  * `buffer`, `decoders`, `encoders`: the byte buffer, the readers and the
    writers of every field, stated as functions from bytes to values and back.
  * `roundtrip`: what is written is read back.
  * `handshake`: C0/C1/C2 and S0/S1/S2, with the HMAC-SHA256 digests of
    rust-crypto and the random bytes of rand.
  * `flv`: the FLV tags and the store they are appended to.
  * `handlers`: the connection's state machine: which bytes to read next, how
    a chunk is read, what each received message changes and which bytes answer it.
  * `clock`: the time of the system clock.
* `tests/` — the tests.
* `app/` — the server: it listens on 127.0.0.1:1935 and moves bytes between
  each connection and its handler.

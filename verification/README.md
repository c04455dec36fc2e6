# time_stamp

Time stamps over COSE signatures: making RFC 3161 requests, judging the
responses, and verifying the time stamps that a signature carries.

The library under `src/` is written in Verus. Its functions state what they
return, and Verus proves it. The exceptions are the functions of `outside`, each
of which makes one call into another crate: what they state is trusted, and the
one that draws a random number states nothing.

| module | what it holds |
| --- | --- |
| `der`, `encode` | reading and writing values in DER |
| `x509`, `rfc3161`, `rfc5652` | the grammars of algorithms, requests, responses, tokens and signed data |
| `signed_attributes` | signed attributes as they are signed |
| `request`, `http` | making a request, posting it, judging the answer |
| `response`, `verify`, `validator` | what a response holds, and whether its time stamp is to be trusted |
| `cbor`, `countersign`, `container` | time stamps over COSE signatures |
| `digest`, `oids`, `time`, `error` | digests, object identifiers, points in time, errors |
| `request_laws`, `laws` | what holds of all of these together |
| `outside` | the calls into other crates, with what is trusted of them |

The library does not check signatures and does not talk to a network. Whoever
calls it passes a `CoseValidator` that checks signatures and a `Signer` that
asks for time stamps. `app/` is plain Rust around the library: HTTP, CBOR
containers, and asynchronous signers.

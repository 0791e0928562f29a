# kakuin-rustls

TLS configurations for workloads that identify themselves by SPIFFE X.509
SVIDs, with identity-aware peer verification:

```
peer certificate  ->  webpki chain validation against the SVID's trust bundle
                  ->  SPIFFE-ID from the URI subject alternative names
                  ->  exact match against the caller's allow-list
```

The chain check proves that the certificate was issued in the trust domain.
The SPIFFE-ID check proves that the peer is a particular workload of it. Peers
are known by their SPIFFE-ID alone: a client may dial under any server name,
because the chain check of a server is one that is not given the name.
A server without an allow-list takes any client whose chain validates.

## Layout

| Module             | What it holds                                                     |
|--------------------|-------------------------------------------------------------------|
| `src/der.rs`       | cutting DER structures off a run of them                          |
| `src/svid.rs`      | the SVID, its chain and its key                                   |
| `src/roots.rs`     | the root store filled from a trust bundle                         |
| `src/certificate.rs` | the search for the SPIFFE-ID in a certificate                   |
| `src/peer.rs`      | the allow-list and the decision on a peer                         |
| `src/webpki.rs`    | the verifier: chain validation, then the decision                 |
| `src/config.rs`    | the builders for servers and clients                              |
| `src/error.rs`, `src/text.rs` | errors and text helpers                                |
| `app/`             | the rustls traits and configurations around the verified library  |

The library is verified with Verus. What it takes on trust of rustls and
x509-cert stands in the contracts of the functions marked `external_body`, each
with a comment that names the call.

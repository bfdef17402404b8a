# dns_resolver

A domain resolution service for a message-passing runtime: it turns service
URLs into node ids, either through the domain name system or through an
on-chain registry contract, caches what it resolved, and opens channels to
the nodes it finds.

`src/` is the library, verified with Verus:

- `wire` and `source_api`: the protocol-buffer wire format and the
  service's four messages, with proofs that each message's wire form reads
  back as the message;
- `hex_codec` and `abi`: hex text and contract-call encoding, through the
  `hex` and `ethabi` crates;
- `dns_contract`: the registry contract's calls, transactions and results;
- `resolver`: URL parsing (through `url`), the choice of lookup for a URL,
  and the registry lookup as a state machine;
- `cache` and `service`: the resolver service, its cache of resolved URLs
  and the steps of a request;
- `dispatch`: routing of incoming messages.

`app/` holds what runs around it: the exported entry points, the runtime's
messaging and channels, and the name-system lookups. `tests/` exercises the
library, comparing its encodings with those of `protobuf` and `ethabi`.

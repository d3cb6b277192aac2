# neighborhood_lib

The neighborhood database of a node in a mesh network, written in Verus. A node keeps a record of
every node it knows of: its public key, its address where that is known, the nodes it is connected
to, and two signatures of all that, one of which can be checked by those who must not learn the
address.

- `src/neighborhood.rs`: what a neighborhood is, as a mathematical value, and what each request
  makes of it
- `src/neighborhood_database.rs`: the database, proved against that model
- `src/table.rs`: lists of keys with values, in which the database keeps what it knows
- `src/neighborhood_laws.rs`: what holds across requests
- `src/history_laws.rs`: what holds after any number of requests
- `src/node_record.rs`, `src/node_record_inner.rs`, `src/node_signatures.rs`, `src/node_addr.rs`:
  records and their parts
- `src/signing.rs`, `src/cryptde.rs`: digests, and the devices that sign them
- `src/cbor.rs`, `src/decoding.rs`: the bytes that are signed, and that they can be read back
- `src/signing_laws.rs`: what each signature covers
- `src/text.rs`: the text of a refusal
- `app/`: the forms in which records travel between nodes

What is taken on trust of `serde_cbor` and `sha1` stands in `src/cbor.rs` and `src/signing.rs`, in
the functions marked `external_body`.

# pow

A small proof-of-work blockchain, verified with Verus.

`src/` is the library. Its functions carry contracts that Verus proves,
except the few marked `external_body` that call `sha2`, `bincode`,
`num-bigint` and std's formatting and UTF-8 decoding: their contracts are
trusted, and their doc comments say what they claim.

- `transaction`, `block`, `render`: transactions, their `Display` text, block
  hashes (SHA-256 over the text of the transactions, the nonce and the parent
  hash), transaction hashes (SHA-256 over bincode) and Merkle roots.
- `difficulty`, `bignum`, `consensus`, `clock`: the target as a big-endian
  number, block validity, and retargeting every `ADJUSTMENT_INTERVAL` blocks.
- `blockchain`, `mempool`, `node`, `mining`, `mining_job`: the chain and its
  integrity check, the pool of pending transactions, the decisions a node
  takes, and the nonce search.
- `viewer`, `sample`, `wallet`, `subtypes`: the explorer's layout and labels,
  sample transactions, wallets and fixed-size identifiers.
- `hashing`: the calls into `sha2` and `bincode`.

`app/` runs a node: locks around the library's state, a tarpc server for the
miner, a libp2p swarm, a transaction generator and a console explorer.
`tests/` exercises the library on concrete values.

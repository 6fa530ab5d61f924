# formula

The verified core of an indexer that listens for NFT transfer events (ERC-721 and
ERC-1155) on EVM chains, checks which NFT interfaces a contract reports through
ERC-165, and keeps an ownership table current.

- `src/` is the library, written in Verus and proved:
  - `ethereum` — addresses and 32-byte words as bytes, their renderings, and the
    calls into `ethers` (hashing, checksums, ABI decoding, number parsing);
  - `erc165` — interface sets, the cache rows, the question-by-question detection
    (`network_service`), and the cached lookup's decisions (`cache_service`);
  - `events` — decoding of `Transfer`, `TransferSingle` and `TransferBatch` logs;
  - `listener` — the records a watched log yields, and the metadata lookup plan;
  - `ethdto` — ownership records and the writes that keep them current;
  - `config`, `errors`, `text` — configuration, messages, decimal rendering.
- `app/` is the program around it: configuration file, database, RPC provider,
  the listening loops and the HTTP route. It performs the calls and writes that the
  library decides on.
- `tests/` runs the library on concrete values.

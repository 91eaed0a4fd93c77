# adytum

Tooling for hosting dapp frontends on the Tari Ootle network: a bundle of frontend
assets is zipped, hashed, cut into chunks and uploaded to a `DappBundle` component,
whose access rules decide who may read it; a `DappRegistry` maps names to bundles.

## Layout

- `src/` — the verified library (Verus).
  - `bundle`, `archive`: zipping a dist tree, the content hash, chunking.
  - `manifest`, `text`: the transaction manifests the CLI submits, and the string
    helpers they rest on (escaping, decimal rendering, line splitting).
  - `sealing`: ChaCha20-Poly1305 sealing of private bundles and ECIES (Ristretto255)
    wrapping of the bundle key for a badge holder.
  - `deploy`: the deploy run as a state machine, one step per wallet reply.
  - `wallet`, `json`: JSON-RPC request building and reply parsing.
  - `config`, `commands`, `ipfs`: settings precedence, command decisions, IPFS
    request URLs and reply parsing.
  - `ootle`, `assoc`, `dapp_bundle`, `dapp_registry`: a model of the on-chain
    templates (state, transitions and their laws).
- `app/` — the command-line program around the library: argument parsing, files,
  HTTP, the async driver loop, and the template shells.
- `tests/` — tests of the library on concrete values.

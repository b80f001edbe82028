# layerfs

A transactional, layered, recoverable root filesystem for Linux: BASE,
UPDATE, UPDATE_HEAD and OVERRIDE layers composed with OverlayFS, four boot
checkpoints that select a prefix of that stack, and system transactions
that stage, validate and atomically activate new generations.

The library (`src/`) holds the decisions, each a verified function from
plain values to plain values:

- `semantics` — checkpoints, kernel command-line options, layers and layer
  stacks, path classes, state, and the layer merge that keeps every entry
  whole (attributes, device nodes, hard links);
- `storage` — store discovery, generations, boot artifacts, mount plans,
  live updates, the layer merge and its overlay semantics, backends;
- `transaction` — the transaction state machine and its manifest;
- `init` — which layers the boot mounts, how the store's device is found;
- `ctl` — the `layerctl` command line, its commands' decisions and output,
  boot-loader settings (`grubenv`, `loader.conf`), integrations, the
  doctor's report;
- `adapter` — the package-manager adapter runner's decisions.

`app/` is the program around it: `layerctl` (and, invoked as
`layerfs-init`, the boot sequence), performing the file operations, mounts
and processes the library decides on.

# arcanum

A controller that keeps Kubernetes secrets and HashiCorp Vault in step, with its logic
verified by Verus.

- `src/` is the verified library:
  - `reconcile.rs`: the reconciler as a step function from state and answer to next state
    and action, with the laws of a reconcile;
  - `sealing.rs`: secret keys, sealing and unsealing of values;
  - `cipher.rs`: the trusted interface to `ecies-ed25519`;
  - `encoding.rs`: the trusted interface to `base64` and UTF-8 decoding;
  - `vault.rs`: the shape of what Vault keeps and the conversions to and from the cluster;
  - `resource.rs`: the Kubernetes objects that the controller reads and writes;
  - `manager.rs`: the in-memory state and the requeue policy after failure;
  - `error.rs`: the controller's errors.
- `app/` runs the controller (Kubernetes API, Vault, metrics, web endpoints) and the
  command-line tools, performing the actions that the library asks for.
- `tests/` exercises the library on concrete values.

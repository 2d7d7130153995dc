# cosigner

The rules of a policy-gated Bitcoin co-signing service, verified with Verus.

A wallet is a miniscript descriptor of three keys. The hardware key and the server key spend at any
time; either of them and the mobile key spend once a relative timelock has passed. The server key
belongs to a service that signs only what its policy allows, after its owner was told and had time
to object.

- `src/` is the library: what a function does is stated in its contract, which Verus proves. Calls
  into other crates stand behind functions whose contracts are stated and not proved.
- `tests/` runs the library with the real crates behind it.
- `app/` is the program around it: the command line, the HTTP API, the database, the node, the
  notifications and the relays.

| module | what it decides |
| --- | --- |
| `config`, `keys` | whether a configuration is one of a three-key wallet |
| `descriptor`, `invariants` | the wallet's descriptor, whose script is whose, what spends it |
| `psbt`, `inspect` | what a transaction spends and pays, its fee and its spending path |
| `policy`, `ledger` | the limits, and what has been spent, queued, vetoed and frozen |
| `signing`, `sign` | the server's signature, and when it is given |
| `policy_auth`, `recovery_contacts` | who changes the policy, lifts a freeze, or ends a hold |
| `http`, `nostr_transport`, `notify`, `status_page` | what requests are answered, and what the owner is told |
| `recovery_kit`, `nostr_kit` | the encrypted backup |
| `wizard`, `tables`, `interview`, `setup`, `compat` | setting a wallet up, and the file that comes of it |
| `migrate` | moving to another wallet |
| `text`, `byteset` | texts and sets of bytes |

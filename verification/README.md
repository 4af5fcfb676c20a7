# vantage

Per-tenant admission control at the traffic-control hook: a classifier judges
packets with token buckets, and a daemon manages the policies behind it.

`src/` is the library. It holds every decision of both sides, written in Verus
with contracts that are proved:

- `common`, `packet`, `bucket`, `datapath`: flow keys and the policy fallback
  chain, packet parsing, token buckets, and the judgement of one packet.
- `table`, `order`, `text`: sorted tables and sets, sorting, and text.
- `tenant`, `tenancy`, `prereqs`, `config`: tenant references, essential tenants,
  host prerequisites, settings.
- `map_client`, `state_store`, `reconcile`: the kernel maps, the desired state
  that survives restarts, and bringing the one in line with the other.
- `adaptive`, `metrics`, `events`, `control_api`, `daemon`: throttling under load,
  metrics and load figures, drop events, the control interface, and start-up.

What acts on the kernel maps or the state file is handed to the library as closures.
Those that change something can be called once, and a precondition permits the call
only with the values that the function is about and only after the steps that come
before it. So a contract says which effects there are, in which order, and that there
are no others. `MapOps`, which the kernel maps implement, states with each operation
that changes a map when it is in order, and `MapClient` passes that on.

Public proof functions state what holds of the library as a whole, such as that
resolution agrees with the packet path, that tenants do not affect each other, that
the state file is never partial and reads back, that reconciling makes the maps what
is desired, or that throttling leaves no trace.

`app/` is the program around it: command line, kernel maps, procfs, files, HTTP and
background tasks, and the shell of the classifier. `tests/` runs the library on
concrete values.

The library trusts what it says of `String::push`, of `u16::from_ne_bytes`, and of
the metrics encoder of the `prometheus` crate; each such item names the function and
what is claimed of it.

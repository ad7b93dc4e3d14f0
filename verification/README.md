# zfs-evacuation-controller

Moves OpenEBS zfs-localpv volumes off a Kubernetes node before the node is
removed. A zfs-localpv PV is tied to one node by immutable node affinity. The
controller has the node agents send the dataset to another node, relays the
stream between them, and then replaces the PV under its own name, so that the PVC
and everything that refers to it stay as they are.

The library decides; the program around it reads the cluster, performs what was
decided, and asks again. Every decision is a function with a contract that Verus
proves, from what has been read so far to either the next thing to read or the
next things to do.

## Layout

- `src/controller/` holds the evacuation.
  - `state_machine` runs the phases: Pending, Guarding, Retaining, Locking,
    Quiescing, TargetSelecting, Transferring, Adopting, Committing, (the commit
    point) Swapping, CleaningUp, Completed; and Aborting and Failed before the
    commit.
  - `transfer`, `pv_swap` and `abort` hold the longer phases.
  - `target`, `placement` and `colocation` choose where a volume goes.
  - `trigger` decides which evacuations are due.
  - `plan` is what phases ask for: things to read, effects, finalizer edits.
  - `clock` and `quantity` read times and sizes.
  - `laws` and `order` state what holds of the machine as a whole.
- `src/transfer/` holds the relay: `relay` has the networks it lets in, `splice`
  the bytes between its two ends.
- `src/crd/` and `src/cluster.rs` hold the resources, as far as decisions go by
  them.
- `src/leader.rs` decides on the leader-election lease.
- `src/text.rs`, `src/string_map.rs`, `src/natural.rs` and `src/rounding.rs` are
  what the rest is written with.
- `app/` is the program: the Kubernetes client, the relay's sockets, the custom
  resources with their schemas.
- `tests/` runs the library on concrete values; `tests/machine.rs` drives whole
  evacuations through an in-memory cluster.

## What is proved

Each function's `ensures` says exactly what it returns and what becomes of the
status. Above them stand laws, as public proof functions, among them:

- steps follow the phases, and past the commit point there is only forward;
- a PV is deleted only past the commit, with both manifests on record; the source
  volume only once the copy has settled, or, while unwinding, where PVC and PV were
  deleted and the volume would have been reclaimed with them;
- nothing is copied, committed or swapped while a pod could be using the volume;
- what is completed or unwound ends with its PVC unlocked; only an evacuation whose
  PV is gone when its target is to be selected, or is another by the time of the
  commit, fails with lock, guard and reclaim policy left in place;
- a live relay is stopped before a failed attempt or an evacuation is taken down;
- every effect belongs to the phase that is on record when it is performed;
- a target is eligible, has the space, and is the one with the most of it left;
- the target gets what the source sent, byte for byte and in order, and the relay
  holds no more than its buffer;
- of two controllers that look at a running lease, at most one bids for it.

## What is trusted

The clock (`std::time::SystemTime`), the reading and writing of RFC 3339 times
(`humantime`), random numbers (`rand`), two functions of `str` and `String`, and
that a `serde_json::Value` can be carried along. Each is marked where it stands.
That the program performs effects in the order it was given them, and that it
reads what it was asked to read, is not proved.

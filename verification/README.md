# condor

A job service and its command-line client, with the service's logic verified
by Verus.

- `src/` is the verified library:
  - `decimal`: base-ten rendering of counters and versions, proved one to one;
  - `keys`: the store's key schema, with a proof that keys of different
    records never collide;
  - `store`: the commands each store operation sends to the key-value server
    and how replies are read, stated exactly over the key schema;
  - `model`: the server's data as a mathematical value, what each command
    does and what each read answers, and the laws of the store (what the
    reads answer after a create, an update or a delete; what pops hand out);
  - `readable`: the store's invariant (every listed group reads back whole)
    and its proof for every write;
  - `events`: the subject and payload of a job-completion event;
  - `service`: fresh ids, failure reporting and the completion rule;
  - `cli`: the client's subcommand arguments and their option rules.
- `app/` runs the server (gRPC over Redis, events over NATS) and the client
  (HTTP to an opencode server); it depends on the project's shared
  `condor_common` crate for the wire types.
- `tests/` exercise the library, including the laws on concrete data.

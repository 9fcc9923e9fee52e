# ambient_runtime

The verified core of a runtime for multiplayer worlds:

- code generation for concepts, that is, for collections of components that describe some form of
  gameplay concept (`concepts`, `concept_struct`, `concept_functions`, `fields`, `values`,
  `value_laws`, `floats`, `semipretty`, with the package items in `items` and token streams in
  `tokens`);
- the server's side of a connection: who is connected, which connection owns a player, and which
  handler gets what a client sends (`server`, `server_laws`, `dispatch`, `handlers`, `registry`,
  `channel`);
- the order in which world diffs are gathered and sent (`diffs`);
- where a file is read from that is given by its URL (`files`).

`src/` is checked by Verus: the functions have contracts, and what holds across functions is
stated by public proof functions. Calls into other crates go through functions marked
`external_body` and through `assume_specification`; their doc comments say what is taken for
granted, and of which results nothing is. `proc_macro2` and `quote` are used without their feature
`proc-macro`: the contracts on token streams are about the streams that these crates implement
themselves, not about those of the compiler. `app/` is the unverified code around it: sockets, locks, worlds, floating point and the
file system.

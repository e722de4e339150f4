# zombie_policy_core

Small tactical-policy models for a 2D action game, with the logic that
does not compute in floats proved correct by Verus.

`src/` is the verified library:

- `model.rs`: the MLP and grouped-attention shapes, their parameter counts,
  and the choice of the empirically best controller (metrics compared in
  the IEEE 754 total order, held as bit patterns).
- `attention.rs`: key/value head normalization, the offline trainer's
  attention count and shape check, the entity decoder's count, the
  capacity-sweep table and the decoder's causal mask.
- `csv.rs`: line splitting, the quoted CSV cell parser, column lookup and
  the decision on each row of a transition CSV.
- `json.rs`: JSON string escaping and the action-name array.
- `args.rs`: the offline trainer's options and the self-play trainer's
  `--name=value` flags.
- `names.rs`: feature and action names.
- `selfplay.rs`: slot roles, action sanitizing, the seeded generator and the
  weight hash of the self-play arena.
- `text.rs`: character-level string helpers.

`app/` holds the two trainers: file I/O, the float models and the
simulation, calling into the library for every integer and text decision.
`tests/` exercises the library.

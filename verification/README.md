# pumpkin_items

The items of a game server, verified: item stacks and their data components, how they are stored as
tags, sent in packets, compared and hashed, and how the inventory screen and commands work on them.

- `src/` is the library. Formats of values are data (`format`), and each component has one; reading
  and writing are stated over formats once and hold for all components.
  - tags: `nbt_tag`, `nbt_source`, `nbt_read`, `nbt_codec`
  - components: `data_component`, `components`, `basic`, `utility`, `block_entity`, `book`,
    `equipment`, `consumable`, `variant`, `item_stack`
  - on the wire: `wire`, `codec`, `coded`, `elements`, `flat`, `nested`, `nested_predicate`,
    `serializer`, `serializer_write`, `stack_hash`
  - stored: `persist`, `stored`, `nested_stored` and the modules whose names end in `_stored`; the
    stored forms of component types that have none there are given with the registries
    (`Registries::stored_forms`)
  - what stacks do: `stack`, `stack_use`, `stack_data`, `bundle`, `screen`, `command`
  - packets: `server_packets`, `client_packets`, `login`, `recipes`, `json`
  - laws: the modules whose names end in `_return` (what was written comes back) and in `_laws`,
    `equal_chain`, `same_hash`, `shrink` and `component_names`
- `tests/` runs the library on concrete values.
- `app/` is what surrounds it: byte streams, printed errors, players and commands.

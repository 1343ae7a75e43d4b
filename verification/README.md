# sticky_key

Sticky keys for keyboard firmware, written in Verus. A sticky key holds an action after its key has
gone up: modifiers or a layer for the next key, or the modifiers of a key that is tapped again and
again.

- `src/` is the library. Its functions are verified against their contracts, down to
  four calls into other crates, named below.
  - `entry`, `producers`, `state`: one held action, who holds its modifiers, and the bounded
    collection of held actions.
  - `machine`, `keyboard`, `readiness`: sticky key handling as a conversation with the rest of the
    keyboard. `machine` states each decision, `keyboard` makes it, and `readiness` tells beforehand
    whether the clock can show the deadlines that it sets.
  - `producer_laws`, `entry_laws`, `phase_laws`, `keyboard_laws`, `cycle_laws`: what holds of the
    library as a whole.
  - `time`, `modifier`, `action`, `event`, `config`, `search`: the vocabulary.
- `tests/` runs the library.
- `app/` is the asynchronous driver: it carries out what the library asks for.

What is not proved: `embassy_time` adds and subtracts ticks and reads the clock (`time`), and
`rmk_types` tells modifier keys from others (`action`). The doc comments there say what is relied on.

# mili_rust

The game logic and protocol codecs of a Minecraft server, written in Verus
with their contracts proved.

- `src/` is the verified library: block worlds and block updates, redstone,
  crafting, villager trades, hoppers, crops, scheduled and random ticks,
  entity memory and behavior trees, the save schedule, packet and NBT codecs,
  chunk storage in the Anvil format, registries and tags, the bundled registry and tag files, the server
  jar's data, and the decisions of the login and configuration phases. Calls into
  outside crates (`rand`, `sha1`, `sha2`, `hmac`, `uuid`, `rsa`, `base64`,
  `zip`, `serde_json`) stand behind small trusted wrappers whose contracts
  name or state what the crate returns.
- `tests/` runs the library on concrete values.
- `app/` is the program around it: configuration files, the tick loop,
  floating-point physics and combat, reading the data files from disk, and
  the login procedures' I/O.

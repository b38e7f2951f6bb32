# kaarissou

The decision logic of the Kaarissou Discord bot, verified with Verus, and the
bot around it.

- `src/` — the verified library:
  - `decimal` — decimal digits: std's unsigned parse rule, decimal writing.
  - `steam_ids` — the Steam ids named in a `stalker` command's text.
  - `opendota` — the OpenDota URLs of a player, and the player made of the
    API's answers (total games, name, MMR, heroes in the order the loop takes
    them, percent ranks drained by hero id).
  - `presence` — who is in the server's voice channels; voice state updates
    and speaking events, and the actions an update calls for.
  - `messages` — which messages a purge pass deletes.
  - `commands` — channel rules of the commands, git arguments, the training
    poll, the state report, the errors.
  - `mention`, `ids` — Discord mentions and the ids the rules name.
- `tests/` — tests of the library.
- `app/` — the bot: Discord, voice, HTTP and git I/O, run by the library's
  decisions. It reads `config.toml` (the token and the ids).

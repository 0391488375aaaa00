# discord_bot

The logic of a small Discord bot, verified with Verus.

- `src/text.rs`: string replacement, byte-wise cutting, decimal parsing and
  rendering, quote escaping, each specified over sequences of characters and
  their UTF-8 encodings.
- `src/json.rs`: JSON values, reading them out of text with `serde_json`, and
  the lookups the bot makes in them.
- `src/api.rs`: the requests the bot sends to the Discord HTTP API.
- `src/gateway.rs`: the gateway information, the heartbeat interval read out
  of the gateway's greeting, and the heartbeat and identification payloads.
- `src/commands.rs`: how the bot answers `!get_channels` and `!test`.
- `src/bot.rs`, `src/channel.rs`: the bot and the text channel types.

`app/main.rs` is the program around the library: it talks to the gateway and
the HTTP API, and hands the library the texts it receives.

# governance_bot

A bot for the Internet Computer that relays open NNS governance proposals to
OpenChat groups, one group per proposal topic. On every heartbeat it checks
whether the polling interval has passed; if so it asks the governance
canister for the newest open proposals, asking for one more each time until
the answer reaches the proposal it announced last (or an older one), or until
asking for one more no longer changes the answer. It then announces the proposals that come
before that point, that is those newer than the last one announced, oldest
first, in the group of its topic.

- `src/` is the verified library (Verus): the heartbeat decision and the bot's
  memory (`state`), the fetching rounds (`proposals`), the text of an
  announcement (`message`), the announcements of a round (`dispatch`), the
  settings and the requests built from them (`config`), the message types
  (`types`) and principals (`principal`).
- `app/` is the canister around it: settings given at install time, the
  heartbeat, the inter-canister calls and the queries, with Candid-encodable
  versions of the message types. The OpenChat setup updates are in
  `app/bot_utilities.rs`, outside the canister's interface until a
  `mod bot_utilities;` item enables them.
- `tests/` runs the library on concrete values.

The canister ids, the bot's user name, the first request size and the polling
interval are settings (`BotConfig`), given when the canister is installed.

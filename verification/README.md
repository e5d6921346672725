# Plin

A Discord bot that follows the river races of Clash Royale clans and keeps
a post with the standings up to date in each server that sets it up.

## Layout

- `src/` is the library, written in Verus: every function states what it
  does in `requires` / `ensures` clauses. Verus proves them all but the few
  small wrappers (marked `#[verifier::external_body]`) around `humantime`,
  `bincode` and std calls, whose contracts are trusted; their doc comments
  say what each one claims.
  - `clan`: the summary of a clan and the text of its field in a post.
  - `river_race`: a river race, the standings (current members only, the
    clan that can reach the most points crowned, ranked for the phase),
    the post's footer and the API addresses.
  - `guild`: each server's settings, the part the database stores, the
    edits that commands make to both, and the byte form of ids.
  - `commands`: the server commands (`war set`, `war reset`, `dev setup`).
  - `legacy`: the single-server form of the bot and its `!plin` commands.
  - `tracker`: the step function of the loop that refreshes a server's
    post, from where it stands and what happened to what it does next.
  - `duration`, `text`: durations read and written with `humantime`, and
    character-level text helpers.
- `app/` is the program around it: Discord events, HTTP requests, the
  database, JSON and the sleeping loop.
- `tests/` runs the library on concrete values.

## Running

Create a `.env` file with `PLIN_CR_TOKEN` (the Clash Royale API key) and
the Discord token: `PLIN_DEV_DISCORD_TOKEN` for `plin`, the multi-server
bot, or `PLIN_DISCORD_TOKEN` for `plin legacy`, the single-server bot.
`plin db` prints what the database holds.

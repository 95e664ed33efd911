# ayame

A Discord bot whose decisions are proved with Verus.

- `src/` is the verified library: time stamps and their text form, YouTube
  search queries and results, youtube-dl and ffmpeg arguments, upload limits,
  the slash command registry, interactive menus (which control a click runs,
  when a menu closes, paging through results), user exclusions, settings and
  colours, and the text helpers these share. `src/outside.rs` holds the calls
  into other crates, each with the contract the proofs rely on.
- `app/` is the bot itself: settings files, the Discord connection, commands,
  downloads and uploads. It hands plain values to the library and acts on
  what comes back.
- `tests/` runs the library on concrete values.

The mensa plans, the voice and music commands and everything that reads or
writes the database (user exclusions, guild settings, bound channels) are not
part of this crate: the crates they need could not be had or built here.

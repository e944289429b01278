# symphony

A terminal music player. The library under `src/` holds its logic with
contracts that Verus proves: the playback queue and its shuffle and repeat
walks, the simulated playback engine, navigation and selection state, the
commands each key or click asks for, the demo, local and YouTube providers
(catalog building, fuzzy search ranking, paging, lookups), the provider and
plugin registries, themes and color parsing, durations, settings defaults,
cache file naming, and the texts the screens show.

`app/` is the program around it: the terminal, the event loop, drawing with
ratatui, the SQLite database, reading and writing files, running `yt-dlp`,
reading audio tags, and the settings file.

`tests/` runs the library on concrete values.

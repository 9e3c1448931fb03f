# activity_lobby

The server side of a voice-channel game: players meet in waiting rooms, over web
endpoints and sockets, and a bot keeps track of who sits in which voice channel.

- `src/` is the library, verified with Verus: rooms and their members (`rooms`),
  one client's conversation (`session`), voice channels and bot commands
  (`voice`), sign-in (`auth`), time stamps (`clock`), room numbers (`utils`),
  settings (`config`), and the collections and texts that these are built on.
  `laws` states what holds of the whole.
- `app/` is the program around it: the web server, the bot and the tasks.
- `tests/` runs the library on concrete values.

The clock, chance and the reading of time stamps come from the crates `chrono`,
`rand` and `uuid`. What the library takes on trust from them is stated at the four
functions of `clock` and `utils` that call them.

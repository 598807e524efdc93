# dbot

A Discord chat bot whose decisions are verified with Verus.

The bot answers messages that mention it with the help of a chat completion
service, remembers the last messages of each channel, follows a few voice
commands (join, leave, play a sound, stop) and, at a set hour of a time zone,
disconnects a user from voice and keeps them out of it.

- `src/` is the library. It decides and computes everything; its functions state
  what they return in contracts that Verus proves. Where something has to be
  done outside (a voice channel joined, a folder listed, the clock read), a
  function returns what is to be done and another goes on with what came of it.
  - `text`, `split`: text, and long answers in messages of limited length
  - `zone`, `schedule`, `scheduler`: instants and time zones, the next bedtime,
    the round of bedtimes
  - `message`, `voice`: what a message asks for, and voice commands step by step
  - `memory`, `completion`, `exchange`, `config`, `bot`: what is remembered,
    questions to the completion service, an exchange with it step by step,
    settings, and the bot as a whole
  - `program`: the plain bot without voice
- `app/` talks to Discord, to the completion service, to the voice driver and to
  the clock. The program runs the plain bot; with the argument `bedtime` it runs
  the bot with voice commands and a bedtime.
- `tests/` runs the library on concrete values.

What is not proved stands in the functions marked `external_body` and in the
`assume_specification` items of `src/zone.rs`, `src/completion.rs` and
`src/text.rs`: calls into `chrono`, `chrono-tz`, `reqwest` and the standard
library, each with what is claimed of it.

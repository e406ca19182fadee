# dstimer

A dead-simple countdown timer for the terminal. The library in `src/` holds
its logic, each function with a contract proved by Verus:

- `clock`: reading durations written as `HH:MM:SS`, `MM:SS` or seconds, and
  formatting a remaining time; reading back a formatted time gives the same
  number of seconds.
- `config`: global defaults, named presets, and how they merge with the
  command line (flags over preset over defaults).
- `entry`: the `HH:MM:SS` entry mask of the interactive prompt, a state
  machine driven by key presses.
- `prompt`: the audio-file and URL prompts: editing and what a confirmed
  entry means.
- `layout`: where the timer, prompts and messages go on the screen, and the
  progress bar's text.
- `session`: which duration a run uses, what the positional argument names,
  and what happens when the countdown ends.
- `keys`, `text`: key events and text building blocks.

`app/` is the command itself: arguments, files, the terminal, sound,
notifications and the HTTP call, around the library.

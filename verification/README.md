# Alarm at Game End

A desktop app for alarms that can wait until your game is over, built around a verified library.

- `src/` is the library: alarms and their times, game detection, the Discord bridge, the saved
  state and the app's own behaviour, each with contracts that Verus proves.
- `app/` is the program around it: windows, files, sockets, threads and sound. It looks for
  `assets/icon.png` and `sounds/universfield-alarm.mp3` next to the executable.
- `tests/` runs the library on concrete values.

The library decides, the program carries out. The app's core (`app::AlarmApp`) answers every event
with a list of actions, the monitor (`worker::AlarmMonitor`) answers every round with a list of
events, and both take the current time as an argument.

Types that contracts speak of have a model: the `deep_view()` of a value is made of sequences,
options and numbers. Functions that relate several calls are stated as public proof functions,
next to what they speak of; those about the app as a whole stand in `app_laws`.

What is taken from other crates on trust is marked `external_body`, `assume_specification` or
`external_type_specification`, with a comment that says what is claimed.

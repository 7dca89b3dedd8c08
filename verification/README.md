# vtd

A push-to-talk voice dictation daemon for Linux: hold a key, speak, release,
and the local whisper.cpp transcription is typed into the focused window.

- `src/` is the verified library (Verus): settings from the environment
  (`config`), keyboard detection from /proc/bus/input/devices (`keyboard`,
  `words`), the recording state machine and the commands it runs (`daemon`),
  the installer's paths, URL and unit file (`install`), the command line
  (`cli`), and the string, path and number helpers they rest on (`text`,
  `path`, `number`).
- `app/` is the program around it: threads, processes, files and the
  environment.
- `tests/` runs the library on concrete inputs.

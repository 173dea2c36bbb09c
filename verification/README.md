# rs_pedalboard

The bookkeeping of a guitar pedalboard, verified with Verus.

`src/` is the library. Its functions are proved against their contracts, except a few small
trusted wrappers around std and chrono calls whose contracts are taken on trust:

- `pedalboard_set` – the pedalboards a user switches between and which one plays;
- `pedalboard` – pedalboards as the controls see them: the parameters a knob or a
  footswitch is mapped to, and how a parameter path finds its pedalboard;
- `eq_presets` – saved EQs, the one applied, fresh names and band labels;
- `parameters` – integer parameter bounds, flip-flop updates and the number a value
  display string is typed with;
- `parameter_updates` – what a relative, absolute or flip-flop update does to a whole-number,
  switch or text parameter;
- `yin` – tuner notes and the buffer the pitch detector needs;
- `pedals` – the kinds of pedal and their names;
- `buffers` – frame and tap arithmetic of the audio buffers;
- `settings`, `processor_settings`, `server_settings` – audio hosts and buffer sizes;
- `vst3` – the plugin host's memory stream, parameter change queues, strings and host
  callbacks;
- `text` – building text and ordering names.

`app/` is the command-line program around it: logging, settings files in JSON, the
plugin directory and the process-wide VST2 host switch. `tests/` runs the library.

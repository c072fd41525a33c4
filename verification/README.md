# orchestrator

The orchestrator registers the instances of the services behind a video
conferencing deployment (roomservers, recorders, transcription services),
keeps their load metrics, and picks the instance that serves a room, a
recording or a transcription.

- `src/` is the library, written in Verus. Its contracts state what each
  function returns or changes; the laws of the instance registry (what a
  registration, a removal, a metrics update and a selection leave behind)
  are proof functions in `src/storage/laws.rs`.
- `app/` is the program around it: the web server, the websocket plumbing,
  the HTTP clients, settings files, logging and the serde forms of the
  messages.
- `tests/` runs the library on concrete values.

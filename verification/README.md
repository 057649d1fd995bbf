# rustdesk_bridge

The state behind the bridge between a remote desktop connection and its user interface, verified
with Verus.

A connection to a peer is shared by any number of sessions of the user interface. A session listens
to an event stream, or polls. The library decides which session is told what, which texture shows
which frame, what the peer is asked for, and what waits for a session that polls.

* `src/` is the library. Functions take the state they work on and hand back what is to be done:
  events with the streams that they go to, requests to the peer, textures that take a frame. Each
  contract says what the new state and the result are, over views of the state.
* `tests/` runs the library on concrete values.
* `app/` holds what surrounds it: locks, event sinks, threads, pointers of the native window,
  floating point numbers, and the interface to the rest of the program.

| module | what it holds |
| --- | --- |
| `table`, `text`, `json`, `layout`, `error` | ordered maps, texts, JSON |
| `message`, `image` | data of the peer and of the user interface |
| `handler`, `renderer`, `ui_events` | the sessions on one connection: frames, textures, events |
| `session`, `sessions`, `session_api`, `session_laws`, `session_id` | the connections |
| `cursor`, `audio`, `quality`, `file_transfer` | what waits for a session that polls |
| `global_events`, `connection_manager`, `async_tasks` | streams that belong to no session |
| `pointer`, `clipboard`, `virtual_display`, `peer_additions` | requests of the user interface |
| `core_main` | entry points of the native window |
| `aom`, `audio_codec`, `kcp_stream` | codecs and transports that are served in part or not at all |

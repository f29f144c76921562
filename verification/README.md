# key_capture

Global key capture for push-to-talk, as a verified library.

The app that this serves detects no hotkeys. It is fed a stream of `KeypressEvent` frames and
matches them against the shortcuts in its own settings. The library under `src/` makes every
decision about that stream and does no input or output:

- `session`: which capture backend a session tries, and in which order;
- `config`: where the settings file is and which chord it binds to push-to-talk;
- `json`: JSON documents as plain values, read with `serde_json`;
- `keypress`, `held`: the frames of a chord going down or up, and the keys held;
- `portal`, `portal_call`, `portal_bind`: the conversation with the GlobalShortcuts portal;
- `portal_loop`: setting portal capture up, and what to do about each event;
- `text`, `number`: strings and decimal numbers.

`app/` is ordinary Rust around it: the environment, the settings file, the portal thread and its
bus. The starters of the X11 and evdev backends and the key map are handed to it.

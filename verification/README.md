# screen_recording

The verified core of a screen recorder, and the colours of the terminal panels that go with it.

The recorder captures every display once a second, writes each display's frames into segments of
at most half an hour, keeps a history of the text on screen beside each segment, and forgets
segments six hours after their last frame. The process that holds a lock file records; others
wait. `src/handover.rs` proves, from what the system promises of file locks and from the
recorders' own steps, that no two hold it at once, that one that waits takes it over once it is
free, and that one that has stopped does not.

- `src/` holds the decisions, each with a contract that Verus proves:
  `tick` (one capture of all displays, as a machine), `capture` (the streams), `segments` (files
  and retention), `manager`, `status`, `owner` and `handover` (requests, tasks, the lock), `encoder`,
  `fragments`, `pixels` and `frame` (video), `ocr`, `backend`, `style`, and `text`, `decimal`,
  `path`, `clock` beneath them.
- `app/` performs what the core asks for: files, tasks, system calls.
- `tests/` runs the core on concrete values.

Calls into chrono, image and muxide stand in `src/` behind small functions whose doc comments say
what is claimed of them without proof.

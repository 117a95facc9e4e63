# vidiotic

A VJ player: audio-reactive shaders over video clips that are cut on the beat.

`src/` is the engine, verified with Verus. It holds the beat clock, the
sequencer, the cue banks and their editing, the saved projects with their
relinking, the camera delay ring, the playback rules of the decoder, the bake
to HAP, the shader pool, and everything that the control surface shows or
sends. It counts beats, seconds, tempi and ratios in millionths, and host time
in nanoseconds. It does no I/O: a call that needs the outside leaves an
`Effect` behind, which the shell performs.

`app/` is the shell around it: windows and GPU, audio capture and analysis,
demuxing and decoding, files, dialogs and the command line.

`tests/` runs the engine on examples.

## Reading order

- `units`, `text`, `seqs`, `paths`: quantities, texts, sequences and paths.
- `commands`, `bank`, `clippool`, `isf`: the values that the engine works on.
- `clock`, `sequencer`: the beat grid, and which cue is on.
- `app`, `editing`, `engine`, `laws`: the engine's state, what each command
  and each frame of the clock does, and what holds of all of them.
- `project`, `relink`, `session`, `saving`, `reopening`: saved projects.
- `video`, `hap`, `capture`, `transcode`: sources of frames.
- `render`, `gfx`, `shaderwatch`, `analysis`: what gets to the GPU.
- `mirror`, `control_input`, `ui`: the control surface without its drawing.

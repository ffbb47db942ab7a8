# vhsify

A command-line tool that gives images and videos the look of an analog VHS
tape, built around a library verified with Verus.

- `src/` is the verified library: path handling (`path`), text helpers
  (`text`), pixel grids and their rotations (`raster`), EXIF orientation
  (`orientation`), decoding and encoding images, turning upright, scaling to
  480 rows and framing at 4:3 (`image`), the frame list of a video (`video`), progress lines
  (`progress`), ffmpeg and ffprobe command lines (`ffmpeg`) and the integer
  part of the tape-hiss effect (`audio`).
- `app/` is the program: argument parsing with clap, reading and writing
  files, running ffmpeg, reading and writing WAV files with hound, the
  parallel frame loop with rayon, and the floating-point effects (the
  ntsc-rs analog-video filter, the low-pass filter and wow and flutter).

Usage: `vhsify <input>.<ext> [--mode bars|crop] [--output-dir <dir>]
[--output-name <name>]`; the output is `<input>_vhs.<ext>` in the current
directory unless a directory or name is given.

# ZenAudio

A desktop music player whose logic is a verified library.

- `src/` is the library, written in Verus. `engine` holds the controls, `decoder` the decisions of
  the decoder thread, `ring` the bounded queue of samples, `frames` the interleaving of decoded
  channels and the blocks for the resampler, `timebase` the positions of timestamps, `display`,
  `metadata` and `paths` what is shown, and `player` the playlist. `laws` states what holds of the
  player as a whole.
- `app/` is the program around it: the window (Slint), the audio device (CPAL), reading and
  decoding files (Symphonia), resampling (Rubato) and reading tags (Lofty).
- `tests/` runs the library.

Samples are 32-bit floats throughout. The library never computes with them; it carries them as bit
patterns, of which `0` is silence. Volumes and other fractions are thousandths.

The library itself calls `ringbuf` for the queue, `tokio` for the channel of commands, `symphonia`
for the time of a timestamp, and the standard library for paths. What is taken on trust of them
stands in the contracts of the functions marked `external_body`, in `ring`, `channel`, `timebase`
and `paths`, and of the one `assume_specification`, in `paths`.

The window is drawn with Qt, which has to be installed (`qt6-base-dev` or `qtbase5-dev` on Debian).
On Linux the program also needs ALSA (`libasound2-dev`, `pkg-config`).

```
zenaudio /path/to/music.mp3
```

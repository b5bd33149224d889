# lib

Host-side logic of an iPhone OS emulator's C library and system frameworks,
written in Verus and proved against its contracts.

- `src/libc/stdlib.rs` and its submodules: the `strto*` family (white
  space, sign, radix prefix and digit scanning, conversion with
  saturation), the pseudo-random generators, environment variables,
  multibyte conversions, `bsearch`'s search state, `system`'s command
  decisions (from the command's C string), allocation sizes, `div`, `_fcvt`'s digit extraction,
  `realpath`'s joined path and the extended-attribute stubs.
- `src/frameworks/audio_toolbox`: open audio files and their properties,
  reads of bytes and packets, and the audio unit instances with their
  properties, parameters, start/stop and render decisions.
- `src/frameworks/core_graphics`, `foundation`, `uikit`: the graphics
  state stack of a context, key-value coding and perform decisions of
  `NSObject`, and nib loading: the archive format and its unarchiver,
  the order of the messages sent to the decoded objects, and the
  placeholder, class and connection decisions.
- `src/bytes.rs`, `src/literals.rs`: byte-string helpers, UTF-8 decoding
  and the names the logic compares against.

`errno` is an `&mut i32` argument of the functions that set it.
Floating-point values are carried as their bit patterns; the arithmetic on
them, the guest callbacks and the OpenAL calls are in `app/`, which uses the
library and is not verified. `tests/` exercises the library on concrete
inputs.

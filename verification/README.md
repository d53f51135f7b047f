# qingjian

The verified core of the Qingjian input method's candidate window and correction
pipeline, written in Verus.

- `src/` is the library. Every function in it is verified against its `requires`
  / `ensures`; the few calls into `std` and `tiny-skia` go through
  small trusted wrappers in `skia.rs` and `text.rs`, each stating what the called
  code documents.
  - `canvas`, `color`: premultiplied pixel arithmetic and source-over blending.
  - `shadow`: the box blur behind the soft shadow.
  - `trak`: reading the AAT `trak` table out of sfnt data.
  - `codec`, `corrector`: the neural corrector's alphabet, input framing, greedy
    decoding bookkeeping and structure checks.
  - `correction`, `host`: the asynchronous correction queue and the shell's
    debounce / poll decisions.
  - `refresh`: the commit-and-refresh chain's decisions (context, marked text,
    prediction, what a commit does).
  - `indicator`, `sink`: the menu-bar mode title, and the candidate-window sink.
  - `shift`: telling a lone Shift tap from Shift used as a modifier.
  - `fonts`: the per-platform font file lists, family de-duplication and ordering, and the font
    picker's filter and selection.
  - `frame`, `theme`, `config`, `layered`: the preedit line, palettes, settings,
    and the layered-window helpers.
- `tests/` runs the library on concrete values.
- `app/` holds what stays outside verification: serde and thiserror types, the
  candle model, threads, font loading through cosmic-text, floating-point drawing
  and hit testing, and the line-based corrector service.

# foto_acte

A passport-photo sheet builder: open a photo, frame it, adjust brightness and
contrast, optionally replace the background through an AI foreground mask, and
save a 15 x 10 cm sheet at 300 DPI holding six 3 x 4 cm copies.

Layout:

- `src/` is the verified library (Verus):
  - `raster.rs`, `grid.rs`: the mathematical model of row-major rasters, crops
    and overlays, and the index arithmetic behind them;
  - `buffers.rs`: the `RgbImage` and `GrayImage` types;
  - `resample.rs`: resampling through the `image` crate;
  - `portrait.rs`: level tables, mask compositing and portrait rendering;
  - `orientation.rs`: turning a photo upright by its EXIF orientation;
  - `decode.rs`: opening a photo file's bytes through the `image` crate;
  - `sheet.rs`: the six-copy print sheet;
  - `export.rs`: JPEG encoding through `jpeg-encoder`, and the print file;
  - `session.rs`: the editing session (photo generations, background choice,
    background-removal progress);
  - `background.rs`: the background choices and their colours.
- `app/` is the desktop program (eframe/egui window, file dialogs, the MODNet
  inference thread through `rten`, and the floating-point framing and tone
  curve). The MODNet model is read from `assets/modnet.onnx` in the
  directory that holds the executable.
- `tests/` runs the library on concrete images and sessions.

# thumbnail-processor

Removes the background of every selfie image in a directory and writes a
transparent PNG for each, with the same basename, into an output directory.

- `src/` is the verified library (Verus):
  - `path` — Unix path text: file name, stem, extension, join.
  - `batch` — the engine configuration, which files are images, where each
    output goes (and the proof that outputs keep the basename and are `.png`),
    the selection of a directory listing.
  - `pool` — the schedule of a run: at most `workers` images at once,
    outcomes reported in image order, with proofs that the pool never stalls
    and counts every image.
  - `engine` — engine errors, the judgement of an external engine's exit
    and output, and the native pipeline (decode, model, PNG encode) over the
    `image` crate; the model step is handed in by the program.
  - `report` — the progress and summary lines.
  - `cli`, `text` — the command-line options as values; decimal text.
- `app/` is the program: argument parsing, directory and file I/O, child
  processes, the `rmbg` model (loading it, and running it under the lock
  the workers share), and the tokio runtime that runs the workers the pool
  schedules.

`Cargo.toml` pins `ort` and `ort-sys` to `2.0.0-rc.1`, the release `rmbg`
0.1.0 was written against (later releases changed the API it calls, and
`rmbg` does not compile with them). `load-dynamic` lets `ort` build without
a bundled ONNX Runtime; the native engine loads that library when it runs.

# vgdi — Very Good Document Imposer, verified core

`vgdi` imposes PDF pages onto press sheets. This crate holds the engine's discrete logic with
contracts proved by Verus; the floating-point geometry, the PDF reading and writing (qpdf) and the
command line live in `app/`, which calls the library.

## Layout

- `src/imposition.rs` — saddle-stitch and perfect-bound page order, with the proofs that each order
  is a permutation of the padded book.
- `src/layout.rs` — job and page refusals, N-up grid slots, booklet and gang layouts, duplex back
  resolution; proofs that N-up and booklet layouts place every page exactly once.
- `src/barcode.rs` — Code 128 (Set B) encoding, with element-count and module-count laws.
- `src/marks.rs` — which mark families apply, cut-mark layout, gripper edge, signature numbering,
  the per-surface mark setup, and the slug line.
- `src/pdf.rs` — transparency-group blend spaces, mark colour resources and operators, and the
  dictionaries the writer synthesises.
- `src/text.rs` — decimal numbers, WinAnsi transcoding, PDF literal and name escaping.
- `src/types.rs`, `src/error.rs` — the plain job settings and the planner's errors.
- `app/` — `impose`, the command-line program: JobSpec parsing (serde), geometry, mark
  positions, and the qpdf backend.

The tests in `tests/` exercise the library.

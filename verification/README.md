# record_prepress

Plant-ready prepress for record labels, verified with Verus.

A job names a plant template (sheet size, bleed/trim/safety/hole guides,
print requirements), one artwork file per print slot and the target print
settings. The library validates the job against the template and the sizes
of the artwork, renders the artwork onto the sheet at the target resolution,
converts the page to grayscale or to the target CMYK ICC profile, writes a
PDF/X file with an output intent, and refuses that file when its own
preflight finds a problem. It also writes the proof PDF, the preflight
report and README of a manufacturing pack, and the pack's store-only ZIP.

Lengths are integer micrometres throughout, so every pixel and point size is
computed exactly.

Layout of `src/`:

- `model`: the job, template, plan and report types.
- `plan`: validation and the prepress plan; `geometry`: placements and unit
  conversions.
- `raster`: cover scaling, compositing, cutouts, grayscale.
- `export`: decoding artwork and the export pipeline; `writers`: the proof
  and plant-ready PDF files; `pdf`: the object writer and its
  cross-reference table; `preflight`: the report on an exported file.
- `pack`, `zip`: the pack's markdown, README and archive.
- `native`, `cli`: the command line's checks and options.
- `codec`: the calls into `image`, `moxcms`, `flate2` and std, with the
  contracts they are trusted to meet.
- `laws`: properties of the library as a whole.

`app/` is the command-line program: file and process I/O and the JSON forms
of the job and the reports.

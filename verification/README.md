# snodas

Tools around the SNODAS snow-depth archive.

- `src/` is the verified library: dates as day numbers of the proleptic
  Gregorian calendar (`date`), the ranges of days to download (`date_ranges`,
  `snodas`), the archive's paths, the decompression and decoding of a day's
  grid (`connection`), the reading of a stored `.npz` grid and its drawing
  (`graphing`), the decisions of the download loop (`download`) and the
  errors (`errors`). `chrono`, `ndarray`, `ndarray-npy`, `flate2` and
  `image` are called through a few trusted wrappers.
- `app/` is the program: the FTP session, the tar stream, the files on disk
  and the window (`main.rs download` or `main.rs map`).
- `tests/` runs the library on concrete dates and grids.

# open_pdf_studio

The verified core of Open PDF Studio, a tabbed PDF viewer built on PDFium.

`src/` is the library, proved with Verus:

- `docs` — the open-documents store: tabs, the active tab, opening (a path
  already open switches to its tab), selecting and closing tabs, the tab strip
  and the properties panel.
- `settings` — preferences and the recent-files list (move to front, no
  duplicates, at most 50 entries; filtering for display).
- `engine`, `channel` — the engine handle, which posts commands to the
  rendering worker; the channel keeps the log of what it was handed.
- `worker` — the worker's decisions: which pages to render at which width,
  pages rendered once per resolution, thumbnails independent of zoom.
- `render`, `pdfium` — page rasterisation through `pdfium-render`, whose
  calls return receipts of what they were asked and gave back.
- `library` — where to look for the PDFium library: the working directory,
  then next to the executable and the installers' resource directories.
- `format` — file sizes, PDF dates and status lines as shown.
- `paths`, `text` — path and character helpers.

`app/` is a console front end: it spawns the worker thread with PDFium,
loads and saves the settings file, opens the PDF named on the command line
and applies the engine's events.

# datafall

The verified core of DataFall, an Adwaita application that downloads HTTP
resources, in sixteen ranges at once when the server allows it.

- `src/` is the library, verified with Verus: URL parsing and file names
  (`address`), response headers (`metadata`), decimal text (`decimal`), chunk
  ranges and cache paths (`chunk`), range requests (`fragment`), cache keys
  (`hash`), and the state machines of a download item (`download_item`), of
  the new download dialog (`new_download`) and of the main window
  (`app_model`).
- `app/` is the program: the GTK user interface, the HTTP requests and the
  file system work. It performs the actions that the library decides.
- `tests/` runs the library on concrete values.

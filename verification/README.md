# cask

`cask` packs a folder of static web files into a single executable. Running
that executable unpacks the files next to it, keeps track of what changed
since the last run, and serves them over HTTP.

* `src/` is the library, written in Verus: path and text handling, the
  manifest tree of a packed site, the route table and its change detection,
  the configuration and command-line rules, the byte trailer that marks an
  embedded archive, and human-readable sizes. Each function carries its
  contract, and the laws that tie functions together are proof functions
  (their names begin with `law_`).
* `app/` is the program around it: command-line parsing with clap, file and
  archive I/O, serde (de)serialisation, and the actix-web server.
* `tests/` runs the library on concrete values.

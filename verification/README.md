# lindera_store

A store of tokenizer dictionaries on disk, and the bookkeeping of nested database scans.

The dictionaries that are embedded in a program are written out once, file by file, in the layout
that lindera's loaders read. Afterwards every process maps the files into memory, so that their
pages are shared. A marker, written last, says that a dictionary is complete; one that an earlier
run has left beside incomplete files is removed before the first file is written.

`src/` is a verified library. It performs no input or output: each run is a state machine that says
which operation comes next and takes the outcome.

| module | what it holds |
| --- | --- |
| `layout` | names of dictionaries and files, paths, when a dictionary is ready |
| `envelope` | the archive in which lindera expects the contents of a file |
| `dictionary` | what each file of a dictionary holds |
| `atomic` | the write of one file |
| `materialize` | the writing out of one dictionary |
| `ensure` | the run over all dictionaries |
| `subprocess` | the same run, left to a subprocess |
| `load` | the request to map a dictionary into memory |
| `scan` | depth, tuple count and log lines of nested scans |
| `failure`, `text` | failures and decimal numbers as text |
| `laws` | what holds of whole runs |

`app/` carries the runs out: files, processes, the clock and the log. Its entry points for scans are
generic in the database's types.

Copies of the dictionaries are embedded by lindera's features (`embedded-ipadic`, `embedded-ko-dic`,
`embedded-cc-cedict`), which fetch their data when the program is built. Without them the load of an
embedded copy is refused, and a run over a store that is not complete ends with that failure.

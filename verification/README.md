# search_panel

The state and the rules of a project-wide search panel: what is searched for, which rows the result
list has, what each key and each click does, and what is replaced. The library is verified with
[Verus](https://github.com/verus-lang/verus).

- `src/` is the library. `panel` holds the panel and its actions. `query` and `glob` read the query
  and the filters. `results`, `matches`, `files` and `entries` lead from search results to rows.
  `delay` lets only the last of several timers count. `render` and `dock` say what is drawn,
  `settings` and `storage` what is kept. `laws` states what holds over several actions, and `text`
  has the strings that all of them need.
- `tests/` runs the library on examples.
- `app/` is the panel as a view of the editor. It draws what the library says, runs searches, edits
  buffers, and talks to the store. It needs the editor's own crates to build.

Trusted are `indexmap::IndexMap`, which keeps the files in order, `str::trim`, `str::trim_start`,
and the `{:?}` form of strings.

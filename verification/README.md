# lanoma

Manage LaTeX study notes: a shelf (a folder) holds subjects (nested folders),
subjects hold notes (`.tex` files) and a master note that gathers them, and a
profile holds the owner's configuration and the Handlebars templates the notes
are written from.

## Layout

- `src/` is the library, verified with Verus. Every public function states
  what it returns in its contract; the laws of the library (normalizing a
  subject name twice, the relative path to a path itself, kebab case giving a
  slug, title case being idempotent, a compilation run sorting every note into
  exactly one outcome, ...) are public proof functions named `law_*`.
  - `text`, `helpers`, `helpers::string`: characters, paths as components,
    relative paths, kebab and title case.
  - `helpers::handlebars`: the arithmetic and path helpers offered to templates.
  - `shelf`, `subjects`, `items`, `note`, `masternote`: where things live.
  - `templates`, `profile`, `config`, `consts`: templates and configuration.
  - `commands`, `compile`: compilation commands and runs.
  - `data`: the data that note and master note templates are rendered with.
  - `error`: the errors and their messages.
- `app/` is the command-line program: argument parsing, the filesystem, the
  compiler processes, the date and floating-point template helpers, and the
  TOML and serde shapes of the data. It leaves the decisions to the library.
- `tests/` runs the library on concrete values.

# dodeca

The verified core of `ddc`, a static site generator with a live-reloading
development server. Every function in `src/` carries a contract that Verus
proves; the laws the library keeps (a normalized route stays normalized, a
lookup after a registry update finds the stored file, a cache read gives
back the last write, the log level cycle comes back after six steps, ...)
are public proof functions beside the code they speak of.

## Layout

- `src/` – the library, verified with Verus.
  - `text.rs`: character-sequence specifications and the string helpers the
    rest is built on.
  - `types.rs`, `db.rs`: routes, input files, registries and build outputs.
  - `links.rs`, `external_links.rs`: link extraction, internal link checking,
    the plan and the per-day cache of external link checks.
  - `render.rs`, `highlight.rs`, `theme_resolver.rs`, `plugins.rs`: routes and
    paths, tables of contents, syntax highlighting and its themes, HTML escaping.
  - `image.rs`, `cas.rs`, `queries.rs`: responsive image variants, content
    hashes and the content store, fonts, static file processing, templates.
  - `inputs.rs`, `registry.rs`, `watch.rs`: which files are inputs, keeping
    the registries current while serving, batching file events.
  - `logging.rs`, `tui.rs`, `activity.rs`, `forwarding.rs`: log levels and
    filters, the terminal interface's model, the activity history.
  - `cli.rs`, `serve_control.rs`, `static_site.rs`, `boot_state.rs`,
    `cells.rs`, `build_stats.rs`, `search.rs`, `rules.rs`, `init.rs`,
    `self_update.rs`, `theme.rs`: command line decisions, server binding, the static
    server, boot gating, cell discovery, build summaries, search inputs,
    specification rules, project templates, release checks and status colors.
- `tests/` – tests run against the compiled library.
- `app/` – the `ddc` program: argument handling, file and terminal I/O and
  the tracing adapter, calling the library for every decision.

Calls into outside crates (`regex`, `rapidhash`, `arborium-theme`,
`owo-colors`, `camino`) go through small wrappers marked
`#[verifier::external_body]`, each with a doc comment saying what its
contract claims of the call. The syntax highlighter (`arborium`) can panic
on some inputs, so the program calls it, catches its panics, and hands the
outcome to the library.

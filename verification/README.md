# stayhydated

Site tooling for stayhydated project pages, verified with Verus: base-path aware
routing, route manifests and sitemaps, the generated route cache, GitHub Pages
assembly, Trunk demo pages, release planning, and the plain data behind the
shared UI components.

## Layout

- `src/` is the verified library. Every function carries a `requires`/`ensures`
  contract over views (`Seq<char>` for text) and spec functions; the `law_*`
  proof functions state properties that span functions (for example that a
  release order publishes dependencies first, that route fallbacks never leave
  the site, and that escaped text holds no markup characters).
  - `routing`, `manifest`, `sitemap`, `route_cache`: URLs, hrefs and output
    paths under a base path; route manifests; the XML sitemap.
  - `web`, `trunk`, `preview`, `workspace`, `paths`: build configuration and
    the decisions of the site build, demo build, preview and book layout.
  - `release`: publish options, `cargo publish` command lines and the
    dependency-ordered release plan.
  - `types`, `ui`, `components`, `presentation`, `projects`, `project_site`:
    text newtypes, accents and classes, navigation data, and project identity.
  - `text`: character-level helpers shared by the modules above.
- `tests/` exercises the library on concrete values.
- `app/` performs the filesystem and process work (reading workspaces, running
  Cargo, Trunk, Dioxus and mdBook, copying build outputs) and calls the library
  for every decision.

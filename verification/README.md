# llm-wiki (verified core)

A git-backed Markdown wiki engine for agents: typed pages with YAML
frontmatter, `[[wikilinks]]` and typed graph edges, a concept graph, lint
rules, and listings written for language models.

Layout:

- `src/` — the library, written in Verus. Each public function carries a
  contract (`requires` / `ensures`) over mathematical models of its inputs
  and results, and Verus proves it. Calls into `petgraph`, `petgraph-live`,
  `serde_yaml`, `chrono`, `git2` and std case mapping go through small
  trusted wrappers whose contracts say what those libraries document.
  - `slug`, `links`, `frontmatter`, `text`: slugs, `wiki://` URIs, link
    extraction and frontmatter blocks.
  - `graph`, `graph_llms`, `graph_merge`, `suggest`: the concept graph, its
    renderings (DOT, Mermaid, plain language), cross-wiki merging and link
    suggestions.
  - `lint`, `structural_lint`: lint rules, their ordering and reports.
  - `config`, `spaces`: the global and per-wiki configuration and the
    registry of wikis.
  - `search`, `index_schema`, `index_state`, `type_registry`: listings,
    facets, index fields and staleness, frontmatter type checks.
  - `watch`, `ops`, `acp`, `export`, `schema_template`, `instructions`:
    file-watch decisions, operation helpers, agent workflows, exports.
- `tests/` — ordinary Rust tests of the library.
- `app/` — the `llm-wiki` command line: argument parsing, files, git and
  configuration files around the library.

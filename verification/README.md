# oxide_seo

An SEO site crawler and technical auditor whose core is verified with Verus.

`src/` is the library. Its own functions are verified against their
contracts; the calls into outside crates stand behind trusted wrappers
(see below), whose contracts are assumed, not proved:

- crawling: the URL frontier (`frontier`), URL normalisation and resolution
  (`urls`), robots.txt answers and caching (`robots`), sitemap parsing
  (`sitemap`), redirect handling and body limits (`fetch`), the decisions of
  the crawl loop (`crawl_steps`) and the crawl configuration (`config`);
- page analysis: what an HTML page contributes (`extract`, `page`), the
  built-in SEO rules (`rules_meta`, `rules_content`, `rules_other`,
  `rules_perf`), the rule registry with its overrides (`registry`) and the
  cross-page analysis (`post_crawl`);
- results: storage rows (`models`, `rows`), query building (`queries`),
  summaries (`results`), the site tree (`sitetree`) and exports (`export`);
- AI analysis: prompts (`prompts`), provider choice, batch budgets and
  retries (`ai`) and what each provider's API is sent (`providers`);
- plugins: manifests (`manifest`), the plugin registry (`plugin_registry`),
  plugin page data (`plugin_page`) and the read-only SQL check (`sql_guard`);
- settings (`settings`).

The trusted wrappers call url, texting_robots, quick-xml, flate2, regex,
blake3, serde_json, semver and rusqlite; each contract says what the crate
documents, naming results that take pages to describe.

`app/` is a command-line host around the library: it fetches pages, drives
the HTML parser, writes SQLite, talks to the LLM providers and exports files.

`tests/` holds the test suite, run against the compiled library.

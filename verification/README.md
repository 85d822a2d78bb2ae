# overmax

The verified core of the Overmax rhythm-game overlay: the data it reads from the
game screen and from the community services, proved correct with Verus.

`src/` is the library; every function in it carries a contract that Verus proves.

| module | what it holds |
| --- | --- |
| `model` | modes, difficulties, scenes and their wire labels |
| `text` | string helpers: trimming, searching, integer printing and parsing |
| `frame` | captured frames, zero-copy strided views, crops, mean colours |
| `atlas` | the fixed atlas of on-screen regions and its translator |
| `detector` | pixel checksums that decide when recognisers run again; the once-per-result-screen event latch |
| `csv`, `sheet_meta` | the pattern-notes sheet, its lookup table and cache entries |
| `scene_config` | named regions of a scene |
| `paths` | the portable or installed file layout |
| `recommend` | recommendation vocabulary, owned packs, the provider-cache reader's decisions |
| `record_db` | the record store's account key, its retry policy, and what its queries make of rows |
| `record_changes` | the log of changed charts that tells the overlay what to redraw |
| `gateway` | URLs, manifests, account files and answers of the web services |
| `telemetry`, `jacket` | pipeline timing, delivery counters, recent matches |

`app/` is ordinary Rust around the library: HTTP through `reqwest`, SQLite through
`rusqlite`, file-system probes, the clock, and the formatting of floating-point values.
`tests/` exercises the library from outside.

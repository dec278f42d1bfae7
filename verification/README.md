Analog Library
==============

A small web service that renders metadata about a paper DOI: title,
authors, venue, abstract, links, and a BibTeX entry. Paper data comes from
the Crossref API (and, for missing abstracts, Semantic Scholar) and is kept
in an on-disk cache for a day.

Layout
------

- `src/` is the library, verified with Verus. Each module states its
  behaviour in `requires` / `ensures` contracts over mathematical models
  (`Seq<char>`, `Seq<u8>`, `nat`), and proves them:
  - `text`: character-level string helpers (trim, split, join, decimal
    formatting) against specifications of the std operations they mirror;
  - `jats`: translation of JATS XML abstracts to HTML and to plain text,
    driven by `quick_xml`'s reader;
  - `keymap`: string-keyed maps whose type invariant is that no key
    occurs twice (the keyed fields of a Crossref record);
  - `crossref`, `ss`: the paper records and what is derived from them
    (titles, DOIs of identical entries, links, dates);
  - `bib`: BibTeX entries and citation keys;
  - `context`: DOI validation, abstract selection, request URLs;
  - `webcache`: cache keys, timestamp encoding, freshness and what a read
    gives back of a write;
  - `serve`, `view`, `cli`: routing decisions, page contents and command
    dispatch.
  Public proof functions named `law_*` state properties that span several
  functions.
- `tests/` runs the library on concrete inputs.
- `app/` is the program around the library: the HTTP server (axum), the
  HTTP client (reqwest), the cache database (sled), JSON decoding (serde),
  HTML templates (maud) and the command line.

Run the server with no arguments (or `serve`); it listens on port 8118.
Other commands: `json`, `html`, `bib`, `abs` (each followed by a DOI) and
`cache`. Set `MAILTO` to identify yourself in requests to the Crossref API.

# rank2collection

Copies the entries a user rated 10 on NeoDB and on Bangumi into a new public
list on each site.

- `src/` is the verified library (Verus): request addresses and bodies, the
  paged downloads (`api_bangumi::RatingDownload`, `api_neodb::ShelfDownload`),
  the choice of top-rated entries, the run that fills a list
  (`filling::Filling`), the reads of the sites' JSON answers (`json`), and the
  settings (`app_config`).
- `app/` is the program around it: HTTP with reqwest, JSON text with
  serde_json, the rating files, and `main`.
- `tests/` runs the library on concrete values.

# babamul_objects

The decisions of an astronomical alert service, verified with Verus: what a request for objects of
the ZTF and LSST surveys asks of the database, what it is answered, which indexes the collections
need, and how an LSST alert is enriched.

## Layout

- `src/` is the library. It talks to no database and no network. A request goes through it in
  steps: each step says what to ask, and the next takes what came back. Every function states what
  it returns, and Verus proves it.
  - Requests: `search`, `position_search`, `object_lookup`, `cone_search`, `xmatch`, with
    `object_id` for identifiers, `sky` for bounds, `geo` for conditions on a place, `ranking` for
    the order of distances, `reply` for refusals and `query` for what is asked.
  - Enrichment: `enrichment`, `photometry`, `sso`, `pipeline`, `footprint`, and `fits` for the file
    that the footprint is read from.
  - Database operations: `db`.
  - Foundations: `document` and `json` for values of the database and of JSON, `ieee` for floating
    point numbers, `text` for strings, `survey`.
  - Laws that span modules: `object_id_laws`, `index_laws`. The other laws stand beside what they
    are about. Each is a public proof function whose name begins with `law_`.
- `tests/` runs the library on concrete values.
- `app/` is the service: HTTP handlers, the database driver, floating point arithmetic, and the
  worker's loop.

## What is trusted

Calls into other crates stand behind contracts that Verus believes. They are the items marked
`external_body`, `assume_specification` or `external_type_specification`, each with a comment that
says what is claimed. They concern documents and values of `mongodb::bson`, values of `serde_json`,
three patterns of `regex`, coverage maps of `moc` and its reader of them, and a few functions of the standard library.

Floating point numbers are carried as bit patterns. They are compared by rules on the bits, and a
law shows that these order the patterns as the numbers that they stand for.

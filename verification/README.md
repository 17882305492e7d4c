# portfolio_pages

The decision logic behind the organization and portfolio pages of an asset-management
web app, written in Verus and proved against its contracts.

- `src/` is the verified library: labels and selector values, form validation, the
  ordering of organizations, roles, portfolios, assets and notifications, and the small
  state machines the pages drive (document tabs, expansion sets, click handling, zoom,
  paging), and the edits an asset page saves: replacing an asset, adding a relationship
  (one active party of each kind), and changing every copy of a document. Proof
  functions named `lemma_*` state the laws that hold across calls, such as that reading back a selector value gives the value written, that toggling twice
  restores a set, and that every sort has exactly one result.
- `tests/` runs the library on concrete values.
- `app/` is the browser glue: reading the viewport and files, starting downloads and
  timers, and converting `uuid`, `chrono` and floating-point values into the plain values
  the library works on.

# horaires

The core of a web page that finds places and their opening hours in
OpenStreetMap data, written in Verus and verified.

- `src/` is the library: the search parameters and the Overpass filter and
  page URL they give (`param`, `state`), the Overpass answer and its tags
  (`overpass`), the results built from it, their favorite mark and their
  order (`node`, `order`), the amenity types of Taginfo (`taginfo`), the
  search page's state and requests (`search`), opening-hours states and
  labels (`hours`), text helpers (`text`) and the router's parameter maps
  (`route`).
- `app/` is the page itself (Leptos): routing, HTTP requests, the
  browser's storage, the map and the time line, which need floating point
  and the clock.
- `tests/` runs the library on concrete values.

# pdf_render

A PDF renderer whose decisions are verified with Verus.

- `src/` is the verified library: font and image loading from Base64 document data
  (`fonts`, `images`, `codec`), font resolution with fallback, rectangle paint and line
  style choice (`paint`), the per-child decision of pagination (`paginate`), and the
  grouping of shaped glyphs into single-style drawing batches (`glyphs`).
- `app/` holds what carries floating point: the JSON document model, the path geometry
  (arcs, rippled sectors, brush strokes) and the drawing onto krilla surfaces.
- `tests/` exercises the library on concrete values.

Laying out a tree of document nodes and paginating it needs a layout engine and a
document tree that this crate does not contain. Of pagination, the library holds the
strategy rules and the decision for each child (`paginate::distribute_step`); nothing in
`app/` drives them, and there is no tree renderer.

# zenith_scene

The decision logic of a scene compiler, verified with Verus. A scene compiler
turns a parsed design document (pages of nodes: rects, text, frames, groups,
instances of components, charts, ...) into drawing commands. This crate holds
the parts of that work that decide rather than measure, each stated in
`requires`/`ensures` contracts and proved:

| module             | what it decides |
|--------------------|-----------------|
| `advisory`         | the advisory record, page selection |
| `dispatch`         | the node dispatch gate (guides, hidden nodes, footnotes, unknown kinds) |
| `scene_ops`        | the shape of the command stream: page/frame clips, background first, fill before stroke |
| `geometry`         | the geometry gate every drawable node passes (missing dimensions, unsupported units) |
| `style`            | the style cascade (node-local value over the named style) |
| `property_resolve` | color and font-family properties against resolved design tokens |
| `data_binding`     | the data-binding pre-pass: scan, and substitution in document order with its advisories |
| `node_tree`        | id prefixing and imported-asset namespacing of expanded subtrees; imported instance fit |
| `overrides`        | finding an override's target and merging its payload |
| `instance`         | locating a component (local or imported) and building an instance's subtree |
| `anchor`           | whether a node gets an anchor-map entry and against which reference; the sibling-dependency processing order (Kahn) |
| `frame_layout`     | which children take part in flow/grid frames; grid cell placement |
| `chain_members`    | text-chain membership and content sources |
| `widow_orphan`     | the widow/orphan adjustment of a chain's box cut |
| `chart_options`    | chart option strings (bar mode, value labels, legend placement, chart kind, frame layout) |
| `palette`          | the series palette and legend/category labels |
| `font`             | font-weight parsing and resolution, family fallback and its advisories |
| `text`             | byte-level string equality and order |

Pixel geometry, text shaping, and floating-point layout are not in this crate:
functions here take the outcome of such steps (a unit that did or did not
convert, a parsed color, a font provider's answer) as plain arguments and are
verified for every value of it.

`src/` is verified by Verus; `tests/` exercises the library on concrete inputs.

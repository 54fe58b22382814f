# makepad_widgets: the list view, verified

The bookkeeping of a virtualized list view, written in Verus.

- `src/ids.rs`: plain identifiers (widget uids, template ids and pointers,
  actions).
- `src/item_map.rs`: the template map and the item-widget map with its
  "used in this pass" marks.
- `src/align.rs`: the items drawn in a pass and their stable sort by index.
- `src/list_view.rs`: the list view's state and decisions: the draw
  protocol, item widgets, keyboard navigation, scroll and drag phases.
- `src/list_view_ref.rs`: handles to list views and sets of handles, and
  which items raised a batch of actions.
- `src/laws.rs`: properties spanning several operations.
- `app/lib.rs`: the floating-point side (scroll offsets, flick speeds, item
  placement) around the verified core.

## The maps

The list view keeps its templates and item widgets in maps of its own
(`src/item_map.rs`): vectors whose keys are pairwise distinct. makepad's
`ComponentMap` is not used: it lives in makepad-platform, and linking
makepad-platform pulls in the X11 cursor, ALSA and PulseAudio system
libraries, which a build of this library and its tests must not need. The
maps here keep the same operations (`get_or_insert`, `retain_visible`, `get`,
`insert`, `clear`) with the same meaning. One difference: they visit their
entries in insertion order, where `ComponentMap`'s hash map leaves the order
open.

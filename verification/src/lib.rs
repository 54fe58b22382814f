//! The list view widget's bookkeeping: which item is on top, which items the
//! drawing protocol hands out, the per-item widget map and the scroll and drag
//! phases, all over plain values so that every step carries a proof.

pub mod ids;
pub mod item_map;
pub mod align;
pub mod list_view;
pub mod list_view_ref;
pub mod laws;

//! Plain identifiers the list view works with.

use vstd::prelude::*;

verus! {

/// The identity of a widget instance.
#[derive(Clone, Copy, Debug, PartialEq, Eq, Structural)]
pub struct WidgetUid(pub u64);

/// An interned name, as used for template ids.
#[derive(Clone, Copy, Debug, PartialEq, Eq, Structural)]
pub struct LiveId(pub u64);

/// A pointer into the live design documents, naming a template node.
#[derive(Clone, Copy, Debug, PartialEq, Eq, Structural)]
pub struct LivePtr {
    pub file_id: u16,
    pub index: u32,
    pub generation: u16,
}

/// The action a list view reports to its container.
#[derive(Clone, Copy, Debug, PartialEq, Eq, Structural)]
pub enum InfiniteListAction {
    Scroll,
    NoAction,
}

/// One action emitted by a widget: the container it came through and the
/// item widget that raised it.
#[derive(Clone, Copy, Debug, PartialEq, Eq, Structural)]
pub struct WidgetActionItem {
    pub container_uid: WidgetUid,
    pub item_uid: WidgetUid,
}

/// Which coordinate of a two-dimensional vector the list scrolls along.
#[derive(Clone, Copy, Debug, PartialEq, Eq, Structural)]
pub enum Vec2Index {
    X,
    Y,
}

/// Where an apply of live properties comes from.
#[derive(Clone, Copy, Debug, PartialEq, Eq, Structural)]
pub enum ApplyFrom {
    /// A fresh instance built from a document.
    NewFromDoc { file_id: u16 },
    /// A running instance updated from an edited document.
    UpdateFromDoc { file_id: u16 },
    /// Any other source (animation, programmatic apply, ...).
    Other,
}

} // verus!

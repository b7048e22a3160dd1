//! Search logic of the Spear launcher: frecency ranking of launched items, the
//! font and application search plugins, the merging and ordering of plugin
//! results, keyboard and action dispatch, theme stylesheet generation and the
//! text that the installer writes.
use vstd::prelude::*;

pub mod text;
pub mod theme;
pub mod frecency;
pub mod launcher;
pub mod plugins;
pub mod ranking;
pub mod setup;

verus! {
} // verus!

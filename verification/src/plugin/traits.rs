//! The kinds of plugins.

use vstd::prelude::*;

verus! {

/// What a plugin adds to the player.
#[derive(Debug, Clone, Copy, PartialEq, Eq, Structural)]
pub enum PluginCategory {
    Extension,
    Visualizer,
    Lyrics,
    Theme,
    Provider,
    Other,
}

} // verus!

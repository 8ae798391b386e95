use vstd::prelude::*;

pub mod color;
pub mod config;
pub mod hyprland;
pub mod style;
pub mod system;
pub mod text;
pub mod widgets;
pub mod workspaces;

verus! {
}

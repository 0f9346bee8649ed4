//! A tiled-pane layout engine for a terminal dashboard.
//!
//! Panes are arranged in a ragged two-dimensional grid: a workspace holds an
//! ordered row of strips (columns), each strip an ordered stack of panes.
//! Focus at every level is an index into the owning sequence, so structural
//! edits only repair integers.  A tab set holds one workspace per tab, and a
//! dispatcher maps key events to layout mutations and produces one redraw
//! frame per consumed message.

pub mod app;
pub mod geometry;
pub mod grid;
pub mod keys;
pub mod pane;
pub mod strip;
pub mod tabs;
pub mod workspace;

pub use app::{Event, MagLabApp};
pub use geometry::{CellGeom, Direction, Rect};
pub use grid::ColumnsState;
pub use keys::{KeyCode, KeyConfig, KeyEvent, KeyMods};
pub use pane::{FileManager, Plugin};
pub use strip::PluginsState;
pub use tabs::TabsState;
pub use workspace::App;

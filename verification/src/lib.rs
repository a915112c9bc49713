//! The terminal half of sqlake: what a screen shows, and what a key or a
//! gesture on it means.
//!
//! The rules it exists to keep:
//!
//! - Drawing code never sees a value. Grid content arrives as a
//!   [`grid::RenderedGrid`], which is where every character-cell decision —
//!   widths, glyphs, elision — is made and where they are confined.
//! - It never branches on which driver is connected. Differences are fields of
//!   [`model::Capabilities`].
//! - Mouse and keyboard produce the same [`Intent`], so nothing can become
//!   mouse-only by accident.
//! - Whatever is drawn records where it landed, in the same call, so a click is
//!   answered against the frame it was aimed at.
//!
//! Nothing here touches a terminal. A frame is a [`paint::Canvas`], an event is
//! an [`events::Event`], and what the store is asked is an [`intent::Action`].
#![allow(unused_imports)]

pub mod chrome;
pub mod clock;
pub mod conduct;
pub mod copy;
pub mod csv;
pub mod datagrid;
pub mod dealings;
pub mod definition;
pub mod detail;
pub mod editor;
pub mod events;
pub mod geometry;
pub mod gestures;
pub mod grid;
pub mod history;
pub mod hit;
pub mod ids;
pub mod input;
pub mod intent;
pub mod invariants;
pub mod json;
pub mod json_reader;
pub mod keymap;
pub mod layers;
pub mod meaning;
pub mod menu;
pub mod model;
pub mod mouse;
pub mod notices;
pub mod outline;
pub mod overlay;
pub mod paint;
pub mod palette;
pub mod panes;
pub mod pictures;
pub mod places;
pub mod reading;
pub mod run;
pub mod screen;
pub mod search;
pub mod shown;
pub mod sql;
pub mod state;
pub mod text;
pub mod tree;
pub mod ui;

pub use chrome::{layout, Frames};
pub use grid::{Align, Cell, CellKind, RenderedColumn, RenderedGrid};
pub use hit::{HitMap, PaneId, ScrollPart, SplitId, Target};
pub use input::{on_key, on_mouse, InputContext};
pub use intent::{Context, Intent, IntentKind, ViewCmd};
pub use keymap::keymap;
pub use mouse::{Gesture, MouseState};
pub use ui::{GridUi, TreeUi, UiState};

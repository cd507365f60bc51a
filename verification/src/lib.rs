//! Rendering and input core of a graphical client for a modal text editor.
//!
//! The editor process owns all text state and streams redraw instructions
//! describing one or more rectangular character grids. This crate holds the
//! verified core of the client: the multi-grid cell store with its damage
//! queue, the highlight table, the glyph-atlas cache, the compositor's
//! geometry, the window-placement planner for a tiling window manager, and
//! the keyboard-to-notation encoder. The unverified shell around it (the
//! editor channel, the windowing backend, the manager's socket) lives
//! outside this crate and exchanges plain values with it.

mod atlas;
mod color;
mod compositor;
mod grid;
mod highlight;
mod keys;
mod laws;
mod redraw;
mod state;
mod sway;
mod table;
mod text;

pub use atlas::AtlasCache;
pub use atlas::AtlasSlot;
pub use atlas::AtlasView;
pub use atlas::atlas_key;
pub use atlas::lemma_atlas_key_injective;
pub use atlas::lemma_atlas_slots_disjoint;
pub use atlas::slots_disjoint;
pub use color::Color;
pub use color::color_from_rgb_value;
pub use compositor::GridLayout;
pub use compositor::backup_extent;
pub use compositor::band_height;
pub use compositor::band_origin_y;
pub use compositor::cell_origin;
pub use compositor::clip_extent;
pub use compositor::frame_time_left;
pub use compositor::window_layout;
pub use grid::Damage;
pub use grid::GridView;
pub use grid::LineCell;
pub use grid::NvimGrid;
pub use highlight::HlUpdate;
pub use highlight::NvimHighlightAttribute;
pub use keys::KeyMods;
pub use keys::KeyRepr;
pub use keys::NvimKeycode;
pub use keys::nvim_char_representation;
pub use keys::nvim_event_representation;
pub use keys::nvim_text_input_representation;
pub use laws::lemma_clear_then_line;
pub use laws::lemma_default_colors_damages_every_grid;
pub use laws::lemma_grow_resize_single_damage;
pub use laws::lemma_resize_sets_dimensions;
pub use redraw::RedrawAction;
pub use redraw::RedrawError;
pub use redraw::RedrawEvent;
pub use redraw::RedrawQueue;
pub use redraw::apply_redraw_event;
pub use redraw::decode_window_handle;
pub use state::NvimState;
pub use state::StateView;
pub use sway::SplitDirection;
pub use sway::SwayCommand;
pub use sway::SwayError;
pub use sway::SwayLayout;
pub use sway::SwayNode;
pub use sway::grid_title;
pub use sway::plan_win_hide;
pub use sway::plan_win_split;


//! Verified core of a block-game renderer: the tables, planners, caches and
//! state machines that decide what the GPU side draws.
use vstd::prelude::*;

pub mod activation;
pub mod atlas;
pub mod block_entity;
pub mod block_entity_draw;
pub mod draw_trace;
pub mod entity;
pub mod entity_draw;
pub mod favicons;
pub mod font_atlas;
pub mod glyph_quads;
pub mod gpu;
pub mod hand;
pub mod item_display;
pub mod item_extrude;
pub mod item_mesh;
pub mod items;
pub mod map_quads;
pub mod mc_text;
pub mod menu_draw;
pub mod menu_elements;
pub mod menu_resources;
pub mod mobs;
pub mod nine_slice;
pub mod overlay_draw;
pub mod particle;
pub mod pipeline_state;
pub mod pixels;
pub mod random;
pub mod screenshot;
pub mod sign_text;
pub mod skins;
pub mod sky;
pub mod sprites;
pub mod stars;
pub mod text;
pub mod text_draw;
pub mod text_map;
pub mod tooltip;
pub mod weather;
pub mod world_border;

verus! {

/// Number of frames the renderer keeps in flight.
pub const MAX_FRAMES_IN_FLIGHT: usize = 2;

} // verus!

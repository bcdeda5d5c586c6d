//! Verified core of a toolkit that turns 2D game projects into SNES ROMs:
//! the project model, the side-scroller simulation, the ROM asset encoders,
//! the dialogue and event data, and the editor's dock layout.
pub mod project;
pub mod platformer;
pub mod collision;
pub mod session;
pub mod text;
pub mod palette;
pub mod errors;
pub mod tiles;
pub mod rom;
pub mod tilemap;
pub mod workspace;
pub mod workspace_file;
pub mod events;
pub mod editor;
pub mod bundle;
pub mod compile;
pub mod assets;
pub mod player_assets;
pub mod background;
pub mod project_data;
pub mod scene_edit;
pub mod preview;
pub mod flood;
pub mod assembly;
pub mod usage;
pub mod layers;
pub mod clipboard;
pub mod canvas;
pub mod diagnostics;
pub mod sprite_import;
pub mod unique_ids;
pub mod favorites;

//! Game rules of a voxel sandbox world: blocks, chunks, terrain shaping,
//! meshing, inventory, crafting, gadgets, save files and sound encoding.

pub mod voxel;
pub mod chunk;
pub mod item;
pub mod inventory;
pub mod hotbar;
pub mod crafting;
pub mod gadget;
pub mod meshing;
pub mod terrain;
pub mod sound;
pub mod save;
pub mod chunk_manager;
pub mod block_interaction;
pub mod biome;
pub mod states;
pub mod mobs;

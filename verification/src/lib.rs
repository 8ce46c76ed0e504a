//! Voxel world rules of a liminal-space exploration game: the block
//! catalogue and its lighting properties, chunk storage, the biome
//! generators that fill chunks, the sound catalogue, and the discrete
//! decisions of the player's frame loop.

pub mod engine;
pub mod liminal;
pub mod terrain;
pub mod visual;
pub mod world;

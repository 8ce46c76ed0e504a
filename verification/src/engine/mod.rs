pub mod neighbors;
pub mod player;
pub mod random;

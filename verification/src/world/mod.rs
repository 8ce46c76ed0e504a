pub mod block;
pub mod chunk;

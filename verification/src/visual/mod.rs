pub mod light;

pub mod entity;
pub mod tilemap;

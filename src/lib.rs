pub mod ant_map;
pub mod direction;
pub mod layout;
pub mod palette;

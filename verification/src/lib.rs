pub mod item;
pub mod mod_describer;
pub mod mods;
pub mod rng;
pub mod strutil;

//! Verified core of a Discord bot that dithers images posted to it.

pub mod discord_structs;
pub mod dither;
pub mod image_job;
pub mod interaction;
pub mod rejections;
pub mod rgb_image;
pub mod signature;
pub mod string_map;
